//! How much of a revision a manifest can touch, and what is alike.

use crate::index::{IndexView, Object};
use crate::manager::revisions::{
    chain_index_from, chain_stored, law_chain_agrees,
};
use crate::manager::rows::Revision;
use crate::manager::subset::{delta_subset, holds_parents, touched, with_parents};
use crate::manager::table::{first, place, place_from, Identified};
use crate::manager::types::{
    described, grantable, permits, same_hint, same_identity, same_policy, same_principal,
    MutationHint, Principal, SnapshotIdentity, SubvolumeInfo, WorktreePolicy,
};
use crate::manifest::ManifestView;
use crate::ordered::Key;
use vstd::prelude::*;

verus! {

/// Whether an inode is one that the manifest speaks of: it changed, or an entry that was
/// added or deleted names it or lies in it, or an added entry takes its name; or it is the
/// root.
pub open spec fn spoken_of(index: IndexView, manifest: ManifestView, ino: u64) -> bool {
    ||| ino == 256
    ||| manifest.objects.contains_key(ino)
    ||| exists|key: Key| #[trigger] manifest.ref_adds.contains(key) && key.first == ino
    ||| exists|key: Key| #[trigger] manifest.ref_adds.contains(key) && key.second == ino
    ||| exists|key: Key| #[trigger] manifest.ref_deletes.contains(key) && key.first == ino
    ||| exists|key: Key| #[trigger] manifest.ref_deletes.contains(key) && key.second == ino
    ||| exists|key: Key, added: Key| #[trigger]
        index.references.contains(key) && #[trigger] manifest.ref_adds.contains(added)
            && key.second == added.second && key.name == added.name && key.first == ino
}

/// The part of a revision that is read for a manifest holds, as the whole does, every inode
/// that the manifest speaks of and every directory above it, with all their entries; and
/// nothing that the whole does not hold.
pub proof fn law_subset_is_enough(
    revisions: Seq<Revision>,
    chain: Seq<i64>,
    manifest: ManifestView,
    index: IndexView,
)
    requires
        chain.len() > 0,
        chain_stored(revisions, chain),
        chain_index_from(revisions, chain, 0) == Ok::<IndexView, Seq<char>>(index),
    ensures
        ({
            let part = delta_subset(revisions, chain, manifest);
            let inos = with_parents(index.references, touched(index.references, manifest));
            &&& forall|ino: u64| spoken_of(index, manifest, ino) ==> #[trigger] inos.contains(ino)
            &&& forall|key: Key| #[trigger]
                index.references.contains(key) && inos.contains(key.first) ==> inos.contains(
                    key.second,
                ) && part.references.contains(key)
            &&& forall|ino: u64| #[trigger]
                part.objects.contains_key(ino) <==> inos.contains(ino)
                    && index.objects.contains_key(ino)
            &&& forall|ino: u64| #[trigger]
                part.objects.contains_key(ino) ==> part.objects[ino] == index.objects[ino]
            &&& forall|key: Key| #[trigger]
                part.references.contains(key) ==> index.references.contains(key)
        }),
{
    let part = delta_subset(revisions, chain, manifest);
    let inos = with_parents(index.references, touched(index.references, manifest));
    law_chain_agrees(revisions, chain, 0, 0);
    assert forall|ino: u64| #[trigger]
        part.objects.contains_key(ino) <==> inos.contains(ino) && index.objects.contains_key(
            ino,
        ) by {
        law_chain_agrees(revisions, chain, 0, ino);
    }
    assert forall|ino: u64| #[trigger] part.objects.contains_key(ino) implies part.objects[ino]
        == index.objects[ino] by {
        law_chain_agrees(revisions, chain, 0, ino);
    }
    assert forall|ino: u64| spoken_of(index, manifest, ino) implies #[trigger] inos.contains(
        ino,
    ) by {
        assert(touched(index.references, manifest).contains(ino));
        assert forall|all: Set<u64>|
            touched(index.references, manifest).subset_of(all) && #[trigger] holds_parents(
                index.references,
                all,
            ) implies all.contains(ino) by {}
    }
    assert forall|key: Key| #[trigger]
        index.references.contains(key) && inos.contains(key.first) implies inos.contains(
        key.second,
    ) && part.references.contains(key) by {
        assert forall|all: Set<u64>|
            touched(index.references, manifest).subset_of(all) && #[trigger] holds_parents(
                index.references,
                all,
            ) implies all.contains(key.second) by {
            assert(all.contains(key.first));
        }
    }
}

/// Two identities, policies, principals or hints that are alike agree in every part.
pub proof fn law_alike_in_every_part(
    one: SnapshotIdentity,
    other: SnapshotIdentity,
    given: WorktreePolicy,
    kept: WorktreePolicy,
    left: Principal,
    right: Principal,
)
    ensures
        same_identity(one, other) <==> {
            &&& one.fs_uuid == other.fs_uuid
            &&& one.subvol_uuid == other.subvol_uuid
            &&& one.parent_uuid == other.parent_uuid
            &&& one.received_uuid == other.received_uuid
            &&& one.root_id == other.root_id
            &&& one.ctransid == other.ctransid
            &&& one.otransid == other.otransid
            &&& one.path@ == other.path@
            &&& one.readonly == other.readonly
            &&& one.created_ns == other.created_ns
        },
        same_policy(given, kept) ==> {
            &&& given.policy_id == kept.policy_id
            &&& given.destination_fs_uuid == kept.destination_fs_uuid
            &&& given.destination_root_subvol_uuid == kept.destination_root_subvol_uuid
            &&& given.destination_root_path@ == kept.destination_root_path@
            &&& given.destination_root_generation == kept.destination_root_generation
            &&& given.metadata_policy@ == kept.metadata_policy@
            &&& given.allow_idmapped == kept.allow_idmapped
            &&& given.policy_hash == kept.policy_hash
        },
        same_principal(left, right) <==> match (left, right) {
            (Principal::Uid(a), Principal::Uid(b)) => a == b,
            (Principal::Service(a), Principal::Service(b)) => a@ == b@,
            _ => false,
        },
{
}

/// The same is told by two hints that are alike: the same kind of change, of the same path.
pub proof fn law_hints_alike(left: MutationHint, right: MutationHint)
    ensures
        same_hint(left, right) <==> match (left, right) {
            (MutationHint::Path(a), MutationHint::Path(b)) => a@ == b@,
            (MutationHint::DirectoryPrefix(a), MutationHint::DirectoryPrefix(b)) => a@ == b@,
            (
                MutationHint::Object { path: a, ino: m, generation: v },
                MutationHint::Object { path: b, ino: n, generation: w },
            ) => a@ == b@ && m == n && v == w,
            (MutationHint::FullInvalidation, MutationHint::FullInvalidation) => true,
            _ => false,
        },
{
}

proof fn lemma_first_place<T: Identified>(rows: Seq<T>, id: [u8; 16], from: int)
    requires
        0 <= from,
    ensures
        place_from(rows, id, from) matches Some(at) ==> from <= at < rows.len() && rows[at].ident()
            == id && forall|i: int| from <= i < at ==> (#[trigger] rows[i]).ident() != id,
    decreases rows.len() - from,
{
    if from < rows.len() && rows[from].ident() != id {
        lemma_first_place(rows, id, from + 1);
    }
}

/// What is found under an identifier is the first row that has it.
pub proof fn law_first_row_is_found<T: Identified>(rows: Seq<T>, id: [u8; 16])
    ensures
        place(rows, id) matches Some(at) ==> 0 <= at < rows.len() && rows[at].ident() == id
            && forall|i: int| 0 <= i < at ==> (#[trigger] rows[i]).ident() != id,
{
    lemma_first_place(rows, id, 0);
}

/// A grant holds at least one of six rights and no other, and permits just what it holds:
/// each right that is required, whatever else is.
pub proof fn law_rights(bits: u8, required: u8, other: u8)
    ensures
        grantable(bits) <==> 0 < bits < 64,
        permits(bits, bits),
        permits(bits, required) && permits(bits, other) <==> permits(bits, required | other),
        permits(bits, 1) <==> bits % 2 == 1,
        permits(0, required) <==> required == 0,
{
    assert(bits & !0x3fu8 == 0 <==> bits < 64) by (bit_vector);
    assert(bits & bits == bits) by (bit_vector);
    assert(bits & required == required && bits & other == other <==> bits & (required | other) == (
    required | other)) by (bit_vector);
    assert(bits & 1 == 1 <==> bits % 2 == 1) by (bit_vector);
    assert(0u8 & required == 0) by (bit_vector);
}

/// The identity of a subvolume holds each part of what the kernel says of it in its place.
pub proof fn law_described_part_by_part(
    fs_uuid: [u8; 16],
    subvolume: SubvolumeInfo,
    path: Vec<u8>,
    created_ns: i64,
)
    ensures
        ({
            let identity = described(fs_uuid, subvolume, path, created_ns);
            &&& identity.fs_uuid == fs_uuid
            &&& identity.subvol_uuid == subvolume.uuid
            &&& identity.parent_uuid == subvolume.parent_uuid
            &&& identity.received_uuid == subvolume.received_uuid
            &&& identity.root_id == subvolume.root_id
            &&& identity.ctransid == subvolume.ctransid
            &&& identity.otransid == subvolume.otransid
            &&& identity.path == path
            &&& identity.readonly == subvolume.readonly
            &&& identity.created_ns == created_ns
        }),
{
}

} // verus!
