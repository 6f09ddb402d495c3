//! What digests are taken of: every byte, in its place.

use crate::bytes::be_bytes;
use crate::inodes::{increasing, law_numbers_in_order};
use crate::manager::types::{policy_preimage, WorktreePolicy, POLICY_HASH_DOMAIN};
use crate::manifest::{
    canonical_preimage, object_preimage, objects_preimage, reference_preimage, references_preimage,
    ChangedObjectsManifest, ObjectChange, Reference, HASH_DOMAIN,
};
use crate::ordered::{bytes_less_from, key_less, keys_of, law_in_order, Keyed};
use vstd::prelude::*;
use vstd::utf8::encode_utf8;

verus! {

/// The eight bytes of a number, the one that counts most first.
pub open spec fn big(value: u64) -> Seq<u8> {
    seq![
        (value / 0x100000000000000 % 0x100) as u8,
        (value / 0x1000000000000 % 0x100) as u8,
        (value / 0x10000000000 % 0x100) as u8,
        (value / 0x100000000 % 0x100) as u8,
        (value / 0x1000000 % 0x100) as u8,
        (value / 0x10000 % 0x100) as u8,
        (value / 0x100 % 0x100) as u8,
        (value % 0x100) as u8,
    ]
}

proof fn lemma_big(value: u64)
    ensures
        be_bytes(value) == big(value),
{
    assert((value >> 56) & 0xff == value / 0x100000000000000 % 0x100 && (value >> 48) & 0xff
        == value / 0x1000000000000 % 0x100 && (value >> 40) & 0xff == value / 0x10000000000 % 0x100
        && (value >> 32) & 0xff == value / 0x100000000 % 0x100 && (value >> 24) & 0xff == value
        / 0x1000000 % 0x100 && (value >> 16) & 0xff == value / 0x10000 % 0x100 && (value >> 8)
        & 0xff == value / 0x100 % 0x100 && value & 0xff == value % 0x100) by (bit_vector);
    assert(be_bytes(value) =~= big(value));
}

/// Two numbers with the same bytes are the same.
pub proof fn law_bytes_tell_numbers_apart(left: u64, right: u64)
    ensures
        be_bytes(left) == be_bytes(right) ==> left == right,
{
    let a = be_bytes(left);
    let b = be_bytes(right);
    if a == b {
        assert(forall|i: int| 0 <= i < 8 ==> a[i] == b[i]);
        assert(a[0] == b[0] && a[1] == b[1] && a[2] == b[2] && a[3] == b[3] && a[4] == b[4] && a[5]
            == b[5] && a[6] == b[6] && a[7] == b[7]);
        assert(left == right) by (bit_vector)
            requires
                ((left >> 56) & 0xff) as u8 == ((right >> 56) & 0xff) as u8,
                ((left >> 48) & 0xff) as u8 == ((right >> 48) & 0xff) as u8,
                ((left >> 40) & 0xff) as u8 == ((right >> 40) & 0xff) as u8,
                ((left >> 32) & 0xff) as u8 == ((right >> 32) & 0xff) as u8,
                ((left >> 24) & 0xff) as u8 == ((right >> 24) & 0xff) as u8,
                ((left >> 16) & 0xff) as u8 == ((right >> 16) & 0xff) as u8,
                ((left >> 8) & 0xff) as u8 == ((right >> 8) & 0xff) as u8,
                (left & 0xff) as u8 == (right & 0xff) as u8,
        ;
    }
}

/// Whether the bytes are those of the text, closed by a zero.
pub open spec fn spells(bytes: Seq<u8>, text: Seq<char>) -> bool {
    &&& bytes.len() == text.len() + 1
    &&& bytes.last() == 0
    &&& forall|i: int| 0 <= i < text.len() ==> (#[trigger] bytes[i]) as char == text[i]
}

/// The bytes that a policy is known by hold each of its parts in its place, behind what
/// kind of bytes they are.
pub proof fn law_policy_is_digested_whole(policy: WorktreePolicy)
    requires
        policy.destination_root_path@.len() <= u64::MAX,
        encode_utf8(policy.metadata_policy@).len() <= u64::MAX,
    ensures
        ({
            let bytes = policy_preimage(policy);
            let n = policy.destination_root_path@.len() as int;
            let name = encode_utf8(policy.metadata_policy@);
            &&& spells(bytes.subrange(0, 31), "btrfs-awacs-worktree-policy-v1"@)
            &&& bytes.subrange(31, 47) == policy.policy_id@
            &&& bytes.subrange(47, 63) == policy.destination_fs_uuid@
            &&& bytes.subrange(63, 79) == policy.destination_root_subvol_uuid@
            &&& bytes.subrange(79, 87) == big(n as u64)
            &&& bytes.subrange(87, 87 + n) == policy.destination_root_path@
            &&& bytes.subrange(87 + n, 95 + n) == big(policy.destination_root_generation)
            &&& bytes.subrange(95 + n, 103 + n) == big(name.len() as u64)
            &&& bytes.subrange(103 + n, 103 + n + name.len()) == name
            &&& bytes.len() == 104 + n + name.len()
            &&& bytes.last() == if policy.allow_idmapped { 1u8 } else { 0u8 }
        }),
{
    let bytes = policy_preimage(policy);
    let n = policy.destination_root_path@.len() as int;
    let name = encode_utf8(policy.metadata_policy@);
    lemma_big(n as u64);
    lemma_big(policy.destination_root_generation);
    lemma_big(name.len() as u64);
    lemma_policy_kind();
    lemma_policy_parts(
        POLICY_HASH_DOMAIN@,
        policy.policy_id@,
        policy.destination_fs_uuid@,
        policy.destination_root_subvol_uuid@,
        be_bytes(n as u64),
        policy.destination_root_path@,
        be_bytes(policy.destination_root_generation),
        be_bytes(name.len() as u64),
        name,
        seq![if policy.allow_idmapped { 1u8 } else { 0u8 }],
    );
}

proof fn lemma_policy_kind()
    ensures
        spells(POLICY_HASH_DOMAIN@, "btrfs-awacs-worktree-policy-v1"@),
{
    let bytes = POLICY_HASH_DOMAIN@;
    let text = "btrfs-awacs-worktree-policy-v1"@;
    reveal_strlit("btrfs-awacs-worktree-policy-v1");
    assert(bytes.len() == 31);
    assert(text.len() == 30);
    assert(bytes.last() == 0);
    assert forall|i: int| 0 <= i < text.len() implies (#[trigger] bytes[i]) as char
        == text[i] by {}
}

proof fn lemma_manifest_kind()
    ensures
        spells(HASH_DOMAIN@, "btrfs-awacs-changed-objects-v1"@),
{
    let bytes = HASH_DOMAIN@;
    let text = "btrfs-awacs-changed-objects-v1"@;
    reveal_strlit("btrfs-awacs-changed-objects-v1");
    assert(bytes.len() == 31);
    assert(text.len() == 30);
    assert(bytes.last() == 0);
    assert forall|i: int| 0 <= i < text.len() implies (#[trigger] bytes[i]) as char
        == text[i] by {}
}

proof fn lemma_policy_parts(
    a: Seq<u8>,
    b: Seq<u8>,
    c: Seq<u8>,
    d: Seq<u8>,
    e: Seq<u8>,
    f: Seq<u8>,
    g: Seq<u8>,
    h: Seq<u8>,
    k: Seq<u8>,
    m: Seq<u8>,
)
    requires
        a.len() == 31,
        b.len() == 16,
        c.len() == 16,
        d.len() == 16,
        e.len() == 8,
        g.len() == 8,
        h.len() == 8,
        m.len() == 1,
    ensures
        ({
            let bytes = a + b + c + d + e + f + g + h + k + m;
            let n = f.len() as int;
            &&& bytes.subrange(0, 31) == a
            &&& bytes.subrange(31, 47) == b
            &&& bytes.subrange(47, 63) == c
            &&& bytes.subrange(63, 79) == d
            &&& bytes.subrange(79, 87) == e
            &&& bytes.subrange(87, 87 + n) == f
            &&& bytes.subrange(87 + n, 95 + n) == g
            &&& bytes.subrange(95 + n, 103 + n) == h
            &&& bytes.subrange(103 + n, 103 + n + k.len()) == k
            &&& bytes.len() == 104 + n + k.len()
            &&& bytes.last() == m[0]
        }),
{
    let bytes = a + b + c + d + e + f + g + h + k + m;
    let n = f.len() as int;
    assert(bytes.subrange(0, 31) =~= a);
    assert(bytes.subrange(31, 47) =~= b);
    assert(bytes.subrange(47, 63) =~= c);
    assert(bytes.subrange(63, 79) =~= d);
    assert(bytes.subrange(79, 87) =~= e);
    assert(bytes.subrange(87, 87 + n) =~= f);
    assert(bytes.subrange(87 + n, 95 + n) =~= g);
    assert(bytes.subrange(95 + n, 103 + n) =~= h);
    assert(bytes.subrange(103 + n, 103 + n + k.len()) =~= k);
}

proof fn lemma_behind(a: Seq<u8>, b: Seq<u8>, c: Seq<u8>, d: Seq<u8>, e: Seq<u8>, f: Seq<u8>)
    requires
        a.len() == 31,
    ensures
        (a + b + c + d + e + f).subrange(0, 31) == a,
        (a + b + c + d + e + f).skip(31) == b + c + d + e + f,
{
    assert((a + b + c + d + e + f).subrange(0, 31) =~= a);
    assert((a + b + c + d + e + f).skip(31) =~= b + c + d + e + f);
}

/// The bytes of an object that changed.
pub open spec fn object_bytes(change: ObjectChange) -> Seq<u8> {
    seq![0x6fu8] + big(change.ino) + big(
        if change.old_generation is Some {
            change.old_generation->0
        } else {
            0
        },
    ) + big(
        if change.new_generation is Some {
            change.new_generation->0
        } else {
            0
        },
    ) + big(change.change_mask)
}

/// The bytes of the objects with the inode numbers, one behind the other.
pub open spec fn objects_bytes(objects: Map<u64, ObjectChange>, inos: Seq<u64>) -> Seq<u8>
    decreases inos.len(),
{
    if inos.len() == 0 {
        Seq::empty()
    } else {
        object_bytes(objects[inos[0]]) + objects_bytes(objects, inos.skip(1))
    }
}

/// The bytes of an entry, behind what became of it.
pub open spec fn entry_bytes(became: u8, entry: Reference) -> Seq<u8> {
    seq![became] + big(entry.ino) + big(entry.parent_ino) + big(entry.name@.len() as u64)
        + entry.name@
}

/// The bytes of entries, one behind the other.
pub open spec fn entries_bytes(became: u8, entries: Seq<Reference>) -> Seq<u8>
    decreases entries.len(),
{
    if entries.len() == 0 {
        Seq::empty()
    } else {
        entry_bytes(became, entries[0]) + entries_bytes(became, entries.skip(1))
    }
}

proof fn lemma_objects(objects: Map<u64, ObjectChange>, inos: Seq<u64>)
    ensures
        objects_preimage(objects, inos) == objects_bytes(objects, inos),
    decreases inos.len(),
{
    if inos.len() == 1 {
        assert(inos.skip(1).len() == 0);
        assert(inos.drop_last().len() == 0);
        lemma_object(objects[inos[0]]);
        reveal_with_fuel(objects_preimage, 2);
        reveal_with_fuel(objects_bytes, 2);
        assert(objects_preimage(objects, inos) =~= objects_bytes(objects, inos));
    } else if inos.len() > 1 {
        let front = inos.drop_last();
        let rest = inos.skip(1);
        lemma_objects(objects, front);
        lemma_objects(objects, rest);
        lemma_objects(objects, rest.drop_last());
        lemma_object(objects[inos.last()]);
        assert(front.skip(1) =~= rest.drop_last());
        assert(rest.last() == inos.last());
        assert(front[0] == inos[0]);
        assert(objects_preimage(objects, inos) =~= objects_bytes(objects, inos));
    }
}

proof fn lemma_object(change: ObjectChange)
    ensures
        object_preimage(change) == object_bytes(change),
{
    lemma_big(change.ino);
    lemma_big(change.change_mask);
    lemma_big(if change.old_generation is Some { change.old_generation->0 } else { 0 });
    lemma_big(if change.new_generation is Some { change.new_generation->0 } else { 0 });
}

proof fn lemma_entry(became: u8, entry: Reference)
    ensures
        reference_preimage(became, entry.key()) == entry_bytes(became, entry),
{
    lemma_big(entry.ino);
    lemma_big(entry.parent_ino);
    lemma_big(entry.name@.len() as u64);
}

proof fn lemma_entries(became: u8, entries: Seq<Reference>)
    ensures
        references_preimage(became, keys_of(entries)) == entries_bytes(became, entries),
    decreases entries.len(),
{
    if entries.len() == 1 {
        assert(entries.skip(1).len() == 0);
        assert(keys_of(entries).drop_last().len() == 0);
        assert(keys_of(entries).last() == entries[0].key());
        lemma_entry(became, entries[0]);
        reveal_with_fuel(references_preimage, 2);
        reveal_with_fuel(entries_bytes, 2);
        assert(references_preimage(became, keys_of(entries)) =~= entries_bytes(became, entries));
    } else if entries.len() > 1 {
        let front = entries.drop_last();
        let rest = entries.skip(1);
        lemma_entries(became, front);
        lemma_entries(became, rest);
        lemma_entries(became, rest.drop_last());
        lemma_entry(became, entries.last());
        assert(front.skip(1) =~= rest.drop_last());
        assert(rest.last() == entries.last());
        assert(front[0] == entries[0]);
        assert(keys_of(entries).drop_last() =~= keys_of(front));
        assert(keys_of(rest).drop_last() =~= keys_of(rest.drop_last()));
        assert(keys_of(entries).last() == entries.last().key());
        assert(keys_of(rest).last() == entries.last().key());
        assert(references_preimage(became, keys_of(entries)) =~= entries_bytes(became, entries));
    } else {
        assert(keys_of(entries).len() == 0);
    }
}

/// The canonical digest of a manifest is taken of all that it says: what kind of bytes
/// they are, each object by its inode number, each entry that was added and each that was
/// deleted, and how many there were of both before they were cancelled.
pub proof fn law_manifest_is_digested_whole(manifest: ChangedObjectsManifest, inos: Seq<u64>)
    requires
        manifest.well_formed(),
        forall|i: int, j: int| 0 <= i < j < inos.len() ==> inos[i] < inos[j],
        inos.to_set() == manifest.objects@.dom(),
    ensures
        ({
            let bytes = canonical_preimage(manifest@);
            &&& bytes.len() >= 47
            &&& spells(bytes.subrange(0, 31), "btrfs-awacs-changed-objects-v1"@)
            &&& bytes.skip(31) == objects_bytes(manifest.objects@, inos) + entries_bytes(
                0x61,
                manifest.ref_adds@,
            ) + entries_bytes(0x64, manifest.ref_deletes@) + big(manifest.raw_ref_adds as u64)
                + big(manifest.raw_ref_deletes as u64)
        }),
{
    let bytes = canonical_preimage(manifest@);
    assert(increasing(inos));
    law_numbers_in_order(inos);
    lemma_objects(manifest.objects@, inos);
    let adds = keys_of(manifest.ref_adds@);
    let deletes = keys_of(manifest.ref_deletes@);
    law_in_order(adds);
    law_in_order(deletes);
    lemma_entries(0x61, manifest.ref_adds@);
    lemma_entries(0x64, manifest.ref_deletes@);
    lemma_big(manifest.raw_ref_adds as u64);
    lemma_big(manifest.raw_ref_deletes as u64);
    lemma_manifest_kind();
    lemma_behind(
        HASH_DOMAIN@,
        objects_bytes(manifest.objects@, inos),
        entries_bytes(0x61, manifest.ref_adds@),
        entries_bytes(0x64, manifest.ref_deletes@),
        big(manifest.raw_ref_adds as u64),
        big(manifest.raw_ref_deletes as u64),
    );
}

/// Whether one name stands before another in a dictionary of bytes.
pub open spec fn name_before(left: Seq<u8>, right: Seq<u8>) -> bool {
    exists|k: int|
        0 <= k <= left.len() && k < right.len() && #[trigger] left.take(k) == right.take(k) && (k
            == left.len() || left[k] < right[k])
}

proof fn lemma_name_before(left: Seq<u8>, right: Seq<u8>, at: int)
    requires
        0 <= at <= left.len(),
        at <= right.len(),
        left.take(at) == right.take(at),
        bytes_less_from(left, right, at),
    ensures
        name_before(left, right),
    decreases left.len() - at,
{
    if at < left.len() && left[at] == right[at] {
        assert(left.take(at + 1) =~= left.take(at).push(left[at]));
        assert(right.take(at + 1) =~= right.take(at).push(right[at]));
        lemma_name_before(left, right, at + 1);
    } else {
        assert(left.take(at) == right.take(at));
    }
}

/// The entries of a manifest stand in order: by the inode that they name, then by the
/// directory that they stand in, then by their names as in a dictionary of bytes.
pub proof fn law_entries_stand_in_order(manifest: ChangedObjectsManifest, i: int, j: int)
    requires
        manifest.well_formed(),
        0 <= i < j < manifest.ref_adds@.len(),
    ensures
        ({
            let (left, right) = (manifest.ref_adds@[i], manifest.ref_adds@[j]);
            ||| left.ino < right.ino
            ||| left.ino == right.ino && left.parent_ino < right.parent_ino
            ||| left.ino == right.ino && left.parent_ino == right.parent_ino && name_before(
                left.name@,
                right.name@,
            )
        }),
{
    let keys = keys_of(manifest.ref_adds@);
    let (left, right) = (manifest.ref_adds@[i], manifest.ref_adds@[j]);
    assert(key_less(keys[i], keys[j]));
    assert(keys[i] == left.key() && keys[j] == right.key());
    if left.ino == right.ino && left.parent_ino == right.parent_ino {
        assert(left.name@.take(0) =~= right.name@.take(0));
        lemma_name_before(left.name@, right.name@, 0);
    }
}

} // verus!
