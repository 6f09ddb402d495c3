//! What the service takes for safe: its directories and limits, the snapshots that it finds
//! again, and the entries that it leaves alone.

use crate::digest::sha256;
use crate::locations::{
    are_names, below_root, law_paths_are_compared_by_names, law_remainder_is_what_is_behind,
    starts_as,
};
use crate::manager::ending::begun;
use crate::manager::rows::{PhysicalState, Snapshot, Store};
use crate::manager::types::SnapshotIdentity;
use crate::names::managed_object_name;
use crate::paths::{lemma_slash_at, lies_in, slash_at};
use crate::service::checks::{
    descendant_fault, directories_before, effect_id, identity_found, identity_of, is_recorded,
    nested_from, odd_from, odd_segment, relative_directory, stored_path_fault,
    stored_paths_fault_from, unexpected, ExpectedSubvolume, FoundEntry, PathObservation,
};
use crate::service::beginning::lemma_kept;
use crate::service::config::{
    expiry_of, private_directory_fault, retaining, start_fault, usual_config, DirectoryCheck,
    DirectoryReport, ServiceConfig, WorktreeViewHandoff,
};
use crate::service::flow::{
    asks_receipt, hands_out, kept_for, EffectKind, KeptHandoff, ReceiptRequest, Service,
};
use crate::spelling::{law_effects_say_what_they_are, law_names_say_what_they_are_for, said};
use crate::watching::leads_down;
use vstd::prelude::*;

verus! {

/// A directory is private where it is there and nobody but its owner can do anything with
/// it: the last six bits of its mode are clear.
pub proof fn law_private_directory(shown: Seq<char>, report: DirectoryReport)
    ensures
        private_directory_fault(shown, report) is None <==> (
        report matches Ok((is_directory, mode)) && is_directory && mode % 64 == 0),
{
    if let Ok((_, mode)) = report {
        assert((mode & 0o077 == 0) == (mode % 64 == 0)) by (bit_vector);
    }
}

/// A service starts only with private directories, a lease that lasts, a manifest limit
/// that the other side can keep, a window of history that is not empty, and a broker where
/// it is looked for.
pub proof fn law_service_starts(
    config: ServiceConfig,
    embedded: bool,
    managed: DirectoryCheck,
    spool: DirectoryCheck,
    max_output: u64,
)
    ensures
        start_fault(config, embedded, managed, spool, max_output) is None <==> {
            &&& embedded <==> config.broker_socket is None
            &&& managed.report matches Ok((managed_there, managed_mode))
            &&& managed_there && managed_mode % 64 == 0
            &&& spool.report matches Ok((spool_there, spool_mode))
            &&& spool_there && spool_mode % 64 == 0
            &&& 0 < config.lease_ns
            &&& 0 < config.max_manifest_bytes <= max_output
            &&& 0 < config.replay_window_cuts
            &&& 0 < config.replay_window_ns
        },
{
    law_private_directory(managed.shown@, managed.report);
    law_private_directory(spool.shown@, spool.report);
}

/// A lease runs out exactly its length after it was taken, where a number can say so.
pub proof fn law_lease_expiry(now_ns: i64, lease_ns: i64)
    ensures
        expiry_of(now_ns, lease_ns) matches Ok(expiry) ==> expiry == now_ns + lease_ns,
        expiry_of(now_ns, lease_ns) is Err <==> now_ns + lease_ns > i64::MAX || now_ns + lease_ns
            < i64::MIN,
{
}

/// The identity of a snapshot holds each part of what was found in its place, and a
/// subvolume is the recorded one exactly where every part agrees.
pub proof fn law_identity_part_by_part(
    found: ExpectedSubvolume,
    path: Vec<u8>,
    created_ns: i64,
    recorded: SnapshotIdentity,
)
    ensures
        ({
            let identity = identity_of(found, path, created_ns);
            &&& identity.fs_uuid == found.filesystem_uuid
            &&& identity.subvol_uuid == found.subvolume_uuid
            &&& identity.parent_uuid == found.parent_uuid
            &&& identity.received_uuid == found.received_uuid
            &&& identity.root_id == found.root_id
            &&& identity.ctransid == found.ctransid
            &&& identity.otransid == found.otransid
            &&& identity.path == path
            &&& identity.readonly == found.readonly
            &&& identity.created_ns == created_ns
        }),
        is_recorded(recorded, found) <==> {
            &&& recorded.fs_uuid == found.filesystem_uuid
            &&& recorded.subvol_uuid == found.subvolume_uuid
            &&& recorded.parent_uuid == found.parent_uuid
            &&& recorded.received_uuid == found.received_uuid
            &&& recorded.root_id == found.root_id
            &&& recorded.ctransid == found.ctransid
            &&& recorded.otransid == found.otransid
            &&& recorded.readonly == found.readonly
        },
{
}

/// The directory for snapshots is refused exactly where it is the watched tree or lies in
/// it, by whole names.
pub proof fn law_managed_directory_lies_outside(
    source: Vec<u8>,
    managed: Vec<u8>,
    source_parts: Seq<Seq<u8>>,
    managed_parts: Seq<Seq<u8>>,
)
    requires
        source_parts.len() > 0,
        managed_parts.len() > 0,
        are_names(source_parts),
        are_names(managed_parts),
        source@ == below_root(source_parts),
        managed@ == below_root(managed_parts),
    ensures
        descendant_fault(Ok(source), Ok(managed)) is Some <==> starts_as(
            managed_parts,
            source_parts,
        ),
{
    law_paths_are_compared_by_names(managed_parts, source_parts);
}

/// Whether the entry is a directory and no symbolic link.
pub open spec fn true_directory(entry: FoundEntry) -> bool {
    entry.is_directory && !entry.is_symlink
}

proof fn lemma_nested(entries: Seq<FoundEntry>, at: int)
    requires
        0 <= at <= entries.len(),
    ensures
        nested_from(entries, at) is Some <==> exists|i: int|
            at <= i < entries.len() && true_directory(#[trigger] entries[i]) && entries[i].ino
                == 256,
    decreases entries.len() - at,
{
    if at < entries.len() {
        lemma_nested(entries, at + 1);
        if exists|i: int|
            at <= i < entries.len() && true_directory(#[trigger] entries[i]) && entries[i].ino
                == 256 {
            let i = choose|i: int|
                at <= i < entries.len() && true_directory(#[trigger] entries[i]) && entries[i].ino
                    == 256;
            assert(true_directory(entries[i]));
        }
        assert(true_directory(entries[at]) == (entries[at].is_directory && !entries[at].is_symlink));
    }
}

proof fn lemma_directories(entries: Seq<FoundEntry>, n: int, path: Seq<u8>)
    requires
        0 <= n <= entries.len(),
    ensures
        directories_before(entries, n).contains(path) <==> exists|i: int|
            0 <= i < n && true_directory(#[trigger] entries[i]) && entries[i].ino != 256
                && entries[i].path@ == path,
    decreases n,
{
    let all = directories_before(entries, n);
    if n > 0 {
        let front = directories_before(entries, n - 1);
        lemma_directories(entries, n - 1, path);
        let here = true_directory(entries[n - 1]) && entries[n - 1].ino != 256;
        if all.contains(path) {
            let k = choose|k: int| 0 <= k < all.len() && all[k] == path;
            if k < front.len() {
                assert(front[k] == path);
                let i = choose|i: int|
                    0 <= i < n - 1 && true_directory(#[trigger] entries[i]) && entries[i].ino != 256
                        && entries[i].path@ == path;
                assert(true_directory(entries[i]));
            } else {
                assert(true_directory(entries[n - 1]));
            }
        }
        if exists|i: int|
            0 <= i < n && true_directory(#[trigger] entries[i]) && entries[i].ino != 256
                && entries[i].path@ == path {
            let i = choose|i: int|
                0 <= i < n && true_directory(#[trigger] entries[i]) && entries[i].ino != 256
                    && entries[i].path@ == path;
            if i < n - 1 {
                assert(front.contains(path));
                let k = choose|k: int| 0 <= k < front.len() && front[k] == path;
                assert(all[k] == path);
            } else {
                assert(all[front.len() as int] == path);
            }
        }
    }
}

/// A nested subvolume is found wherever it stands, and every other directory is looked
/// into.
pub proof fn law_nested_subvolumes_are_found(entries: Seq<FoundEntry>, path: Seq<u8>)
    ensures
        nested_from(entries, 0) is Some <==> exists|i: int|
            0 <= i < entries.len() && true_directory(#[trigger] entries[i]) && entries[i].ino
                == 256,
        directories_before(entries, entries.len() as int).contains(path) <==> exists|i: int|
            0 <= i < entries.len() && true_directory(#[trigger] entries[i]) && entries[i].ino != 256
                && entries[i].path@ == path,
{
    lemma_nested(entries, 0);
    lemma_directories(entries, entries.len() as int, path);
}

/// A directory is the one searched for exactly where both its inode number and its
/// generation are; the generation is not asked for where the number differs.
pub proof fn law_directory_is_known_by_both(
    ino: u64,
    generation: Result<u64, String>,
    wanted_ino: u64,
    wanted_generation: u64,
)
    ensures
        identity_found(ino, generation, wanted_ino, wanted_generation) matches Ok(true) <==> ino
            == wanted_ino && (generation matches Ok(found) && found == wanted_generation),
        identity_found(ino, generation, wanted_ino, wanted_generation) is Err <==> ino == wanted_ino
            && generation is Err,
{
}

proof fn lemma_plain(front: Seq<u8>, parts: Seq<Seq<u8>>, path: Seq<u8>)
    requires
        parts.len() > 0,
        are_names(parts),
        leads_down(parts),
        path == front + below_root(parts).skip(1),
    ensures
        !odd_from(path, front.len() as int),
    decreases parts.len(),
{
    let from = front.len() as int;
    let name = parts[0];
    let rest = parts.skip(1);
    let end = from + name.len();
    assert(name.len() > 0 && !name.contains(0x2f) && name != seq![0x2eu8] && name != seq![
        0x2eu8,
        0x2eu8,
    ]);
    assert(below_root(parts).skip(1) =~= name + below_root(rest));
    assert(path =~= front + name + below_root(rest));
    assert(path.subrange(from, end) =~= name);
    assert forall|i: int| from <= i < end implies path[i] != 0x2f by {
        assert(path[i] == name[i - from]);
        assert(name.contains(name[i - from]));
    }
    lemma_slash_at(path, from);
    if rest.len() > 0 {
        assert(below_root(rest)[0] == 0x2f);
        assert(path[end] == 0x2f);
    } else {
        assert(end == path.len());
    }
    assert(slash_at(path, from) == end);
    assert(!odd_segment(name));
    if rest.len() > 0 {
        let next = front + name + seq![0x2fu8];
        assert(path =~= next + below_root(rest).skip(1));
        assert forall|i: int| 0 <= i < rest.len() implies (#[trigger] rest[i]).len() > 0
            && !rest[i].contains(0x2f) && rest[i] != seq![0x2eu8] && rest[i] != seq![
            0x2eu8,
            0x2eu8,
        ] by {
            assert(rest[i] == parts[i + 1]);
        }
        lemma_plain(next, rest, path);
        assert(next.len() == end + 1);
    }
}

/// A directory below a root is named by what is behind the root; one that does not lie
/// there is refused.
pub proof fn law_directory_below_its_root(
    root: Seq<Seq<u8>>,
    rest: Seq<Seq<u8>>,
    other: Seq<Seq<u8>>,
)
    requires
        root.len() > 0,
        rest.len() > 0,
        other.len() > 0,
        are_names(root),
        are_names(rest),
        are_names(other),
        leads_down(rest),
    ensures
        relative_directory(below_root(root), below_root(root + rest)) == Ok::<Seq<u8>, Seq<char>>(
            below_root(rest).skip(1),
        ),
        relative_directory(below_root(root), below_root(root)) matches Ok(none) && none.len() == 0,
        !starts_as(other, root) ==> relative_directory(below_root(root), below_root(other)) is Err,
{
    law_remainder_is_what_is_behind(root, rest);
    law_paths_are_compared_by_names(other, root);
    law_paths_are_compared_by_names(root, root);
    assert(root.take(root.len() as int) =~= root);
    let relative = below_root(rest).skip(1);
    assert(Seq::<u8>::empty() + relative =~= relative);
    lemma_plain(Seq::empty(), rest, relative);
    assert(below_root(rest) =~= seq![0x2fu8] + rest[0] + below_root(rest.skip(1)));
    assert(relative[0] == rest[0][0]);
    assert(rest[0].contains(rest[0][0]));
}

/// Whether the snapshot is in order: it lies in the directory for snapshots, what is at its
/// path could be seen, and nothing is there where it was deleted.
pub open spec fn in_its_place(
    snapshot: Snapshot,
    observation: PathObservation,
    managed: Seq<u8>,
) -> bool {
    &&& lies_in(snapshot.path@, managed)
    &&& observation.present matches Ok(present)
    &&& snapshot.physical_state == PhysicalState::Deleted ==> !present
}

proof fn lemma_in_place(
    snapshots: Seq<Snapshot>,
    observations: Seq<PathObservation>,
    managed: Seq<u8>,
    at: int,
)
    requires
        0 <= at <= snapshots.len(),
        observations.len() == snapshots.len(),
    ensures
        stored_paths_fault_from(snapshots, observations, managed, at) is None <==> forall|i: int|
            at <= i < snapshots.len() ==> in_its_place(
                #[trigger] snapshots[i],
                observations[i],
                managed,
            ),
    decreases snapshots.len() - at,
{
    if at < snapshots.len() {
        lemma_in_place(snapshots, observations, managed, at + 1);
        assert(in_its_place(snapshots[at], observations[at], managed) == (stored_path_fault(
            snapshots[at],
            observations[at],
            managed,
        ) is None));
    }
}

/// The stored snapshots are accepted exactly where each is in its place.
pub proof fn law_stored_snapshots_are_in_place(
    snapshots: Seq<Snapshot>,
    observations: Seq<PathObservation>,
    managed: Seq<u8>,
)
    requires
        observations.len() == snapshots.len(),
    ensures
        stored_paths_fault_from(snapshots, observations, managed, 0) is None <==> forall|i: int|
            0 <= i < snapshots.len() ==> in_its_place(
                #[trigger] snapshots[i],
                observations[i],
                managed,
            ),
{
    lemma_in_place(snapshots, observations, managed, 0);
}

/// An entry of the managed directory is set aside only where it has the name of an object of
/// the service, and neither a snapshot that is there nor an operation that began has its
/// path.
pub proof fn law_known_entries_are_left_alone(store: Store, name: Seq<u8>, path: Seq<u8>, i: int)
    ensures
        unexpected(store, name, path) ==> name != said("quarantine"@) && managed_object_name(name),
        unexpected(store, name, path) && 0 <= i < store.snapshots@.len()
            && store.snapshots@[i].path@ == path ==> store.snapshots@[i].physical_state
            == PhysicalState::Deleted,
        unexpected(store, name, path) && 0 <= i < store.operations@.len()
            && store.operations@[i].reserved_path@ == path ==> !begun(store.operations@[i]),
        managed_object_name(name) && name != said("quarantine"@) && (forall|j: int|
            0 <= j < store.snapshots@.len() ==> (#[trigger] store.snapshots@[j]).path@ != path) && (
        forall|j: int|
            0 <= j < store.operations@.len() ==> (#[trigger] store.operations@[j]).reserved_path@
                != path) ==> unexpected(store, name, path),
{
    law_names_say_what_they_are_for();
}

/// The identifier of an effect is the first half of the digest of what it is the effect of.
pub proof fn law_effect_identifier(operation_id: Seq<u8>, label: Seq<u8>)
    ensures
        effect_id(operation_id, label) == sha256(
            said("btrfs-awacs-effect-id-v1"@).push(0) + operation_id + label,
        ).take(16),
{
    law_effects_say_what_they_are();
}

/// Unless it is told otherwise, a service holds a lease for five minutes, keeps a hundred and
/// twenty-eight cuts and a day of history, and takes manifests as long as the other side
/// makes them.
pub proof fn law_usual_configuration(
    managed: Vec<u8>,
    spool: Vec<u8>,
    boot_id: [u8; 16],
    max_output: u64,
    cuts: i64,
    duration_ns: i64,
)
    ensures
        ({
            let config = usual_config(managed, spool, boot_id, max_output);
            &&& config.managed_snapshot_directory == managed
            &&& config.spool_directory == spool
            &&& config.boot_id == boot_id
            &&& config.lease_ns == 300_000_000_000
            &&& config.max_manifest_bytes == max_output
            &&& config.replay_window_cuts == 128
            &&& config.replay_window_ns == 86_400_000_000_000
            &&& config.broker_socket is None
            &&& !config.experimental_dirty_witness_verified
            &&& retaining(config, cuts, duration_ns).replay_window_cuts == cuts
            &&& retaining(config, cuts, duration_ns).replay_window_ns == duration_ns
            &&& retaining(config, cuts, duration_ns).lease_ns == config.lease_ns
            &&& retaining(config, cuts, duration_ns).managed_snapshot_directory == managed
            &&& retaining(config, cuts, duration_ns).spool_directory == spool
        }),
{
}

/// A receipt is asked for in the name of the service, for the operation and the fence that it
/// is the effect of.
pub proof fn law_receipt_names_its_effect(
    service: Service,
    id: [u8; 16],
    operation_id: [u8; 16],
    operation_fence: i64,
    effect_kind: EffectKind,
    filesystem_uuid: [u8; 16],
    started_ns: i64,
    receipt: ReceiptRequest,
)
    requires
        asks_receipt(
            service,
            id,
            operation_id,
            operation_fence,
            effect_kind,
            filesystem_uuid,
            started_ns,
            receipt,
        ),
    ensures
        receipt.id == id,
        receipt.operation_id == operation_id,
        receipt.operation_fence == operation_fence,
        receipt.effect_kind == effect_kind,
        receipt.filesystem_uuid == filesystem_uuid,
        receipt.started_ns == started_ns,
        receipt.manager_store_uuid == service.manager_store_uuid,
        receipt.manager_session_id == service.manager_session_id,
        receipt.boot_id == service.config.boot_id,
        forall|i: int| 0 <= i < 32 ==> #[trigger] receipt.target_locator_hash@[i] == 0,
        forall|i: int| 0 <= i < 32 ==> #[trigger] receipt.effect_arguments_hash@[i] == 0,
{
}

/// A view that is handed out is not kept any more, and every other one is.
pub proof fn law_view_is_handed_out_once(
    before: Seq<KeptHandoff>,
    after: Seq<KeptHandoff>,
    watch_id: [u8; 16],
    grant_id: [u8; 16],
    root: Option<Vec<u8>>,
    taken: Option<WorktreeViewHandoff>,
    i: int,
)
    requires
        hands_out(before, after, watch_id, grant_id, root, taken),
    ensures
        taken is None ==> after == before,
        taken is Some ==> after.len() == before.len() - 1,
        taken matches Some(view) ==> view.authorization_id == grant_id && (root matches Some(path)
            && path@ == view.monitor.bound().root_path@),
        0 <= i < before.len() && before[i].watch_id != watch_id ==> after.contains(before[i]),
        0 <= i < before.len() && before[i].watch_id == watch_id && before[i].handoff.authorization_id
            == grant_id && (root matches Some(path) && path@
            == before[i].handoff.monitor.bound().root_path@) && (forall|j: int|
            0 <= j < i ==> (#[trigger] before[j]).watch_id != watch_id) ==> taken == Some(
            before[i].handoff,
        ),
{
    lemma_kept(before, watch_id, grant_id, root, 0);
    if 0 <= i < before.len() {
        if before[i].watch_id != watch_id {
            match kept_for(before, watch_id, grant_id, root, 0) {
                Some(at) => {
                    if i < at {
                        assert(after[i] == before[i]);
                    } else {
                        assert(after[i - 1] == before[i]);
                    }
                },
                None => {
                    assert(after[i] == before[i]);
                },
            }
        } else if forall|j: int| 0 <= j < i ==> (#[trigger] before[j]).watch_id != watch_id {
            lemma_reached(before, watch_id, grant_id, root, 0, i);
        }
    }
}

proof fn lemma_reached(
    handoffs: Seq<KeptHandoff>,
    watch_id: [u8; 16],
    grant_id: [u8; 16],
    root: Option<Vec<u8>>,
    from: int,
    i: int,
)
    requires
        0 <= from <= i < handoffs.len(),
        handoffs[i].watch_id == watch_id,
        forall|j: int| from <= j < i ==> (#[trigger] handoffs[j]).watch_id != watch_id,
    ensures
        kept_for(handoffs, watch_id, grant_id, root, from) == kept_for(
            handoffs,
            watch_id,
            grant_id,
            root,
            i,
        ),
    decreases i - from,
{
    if from < i {
        lemma_reached(handoffs, watch_id, grant_id, root, from + 1, i);
    }
}

} // verus!
