//! The authenticated changed-object stream: endpoint identities, exact target
//! metadata, subvolume boundaries, and a closing checksum.

use crate::bytes::{get_array_16, get_le_u16, get_le_u32, get_le_u64, get_range};
use crate::bytes::{le_u16, le_u32, le_u64};
use crate::crc32c::{crc32c, crc32c_of};
use crate::inodes::sorted_keys;
use crate::manifest::{change_at, change_fault_at, entry_name, is_entry_name, lemma_ascending_len};
use crate::manifest::{named_at, read_change, reference_fault, validate_reference};
use crate::manifest::{ChangedObjectsManifest, ManifestView, ObjectChange, ParseError, Reference};
use crate::manifest::{CHANGED_OBJECTS_V2_MAGIC, CHANGED_OBJECTS_V2_VERSION, CHANGE_REF};
use crate::manifest::{RECORD_HEADER_SIZE, RECORD_OBJECT, RECORD_REF_ADD, RECORD_REF_DELETE};
use crate::manifest::REF_RECORD_SIZE;
use crate::ordered::{
    ascending, bytes_precede, difference, insert, key_less, key_set, keys_of, law_key_order, locate,
};
use crate::ordered::{Key, Keyed};
use crate::text::{copy_bytes, same_bytes};
use std::collections::BTreeMap;
use vstd::prelude::*;

verus! {

broadcast use vstd::std_specs::btree::group_btree_axioms;

pub const V2_HEADER_SIZE: usize = 112;

pub const V2_OBJECT_RECORD_SIZE: usize = 96;

pub const V2_XATTR_RESET_SIZE: usize = 16;

pub const V2_XATTR_RECORD_SIZE: usize = 24;

pub const V2_COMPLETION_SIZE: usize = 32;

pub const RECORD_XATTR_RESET: u16 = 4;

pub const RECORD_XATTR: u16 = 5;

pub const RECORD_BOUNDARY_ADD: u16 = 6;

pub const RECORD_BOUNDARY_DELETE: u16 = 7;

pub const RECORD_COMPLETION: u16 = 0xffff;

pub const RECORD_TARGET_VALID: u16 = 1;

pub const RECORD_OPTIONAL: u16 = 0x8000;

pub const V2_BOUNDARY_RECORDS: u64 = 2;

pub const V2_DIRTY_WITNESS: u64 = 4;

/// The stream flags that have a meaning.
pub const V2_KNOWN_FLAGS: u64 = 6;

/// The two endpoints and what the kernel promises about the stream.
#[derive(Clone, Copy, Debug, Eq, PartialEq)]
pub struct ChangedObjectsV2Header {
    /// Every nested-subvolume directory entry transition is in the stream.
    pub boundary_records: bool,
    /// Inode and directory mutations leave persistent witnesses.
    pub dirty_witness: bool,
    pub fs_uuid: [u8; 16],
    pub source_uuid: [u8; 16],
    pub target_uuid: [u8; 16],
    pub source_ctransid: u64,
    pub target_ctransid: u64,
    pub source_root_id: u64,
    pub target_root_id: u64,
}

/// The inode item of a changed object on the target side.
#[derive(Clone, Copy, Debug, Eq, PartialEq)]
pub struct TargetObjectMetadata {
    pub generation: u64,
    pub change_sequence: u64,
    pub transid: u64,
    pub mode: u64,
    pub nlink: u64,
    pub uid: u64,
    pub gid: u64,
    pub rdev: u64,
}

/// A directory entry that leads into another subvolume.
#[derive(Clone, Debug, Eq, Ord, PartialEq, PartialOrd)]
pub struct SubvolumeBoundary {
    pub parent_ino: u64,
    pub child_root_id: u64,
    pub name: Vec<u8>,
}

impl Keyed for SubvolumeBoundary {
    open spec fn key(&self) -> Key {
        Key { first: self.parent_ino, second: self.child_root_id, name: self.name@ }
    }

    fn precedes(&self, other: &Self) -> (less: bool) {
        if self.parent_ino != other.parent_ino {
            self.parent_ino < other.parent_ino
        } else if self.child_root_id != other.child_root_id {
            self.child_root_id < other.child_root_id
        } else {
            bytes_precede(&self.name, &other.name)
        }
    }

    fn duplicate(&self) -> (copy: Self) {
        SubvolumeBoundary {
            parent_ino: self.parent_ino,
            child_root_id: self.child_root_id,
            name: copy_bytes(&self.name),
        }
    }
}

/// An extended attribute.
#[derive(Clone, Debug, Eq, PartialEq)]
pub struct Xattr {
    pub name: Vec<u8>,
    pub value: Vec<u8>,
}

impl Keyed for Xattr {
    open spec fn key(&self) -> Key {
        Key { first: 0, second: 0, name: self.name@ }
    }

    fn precedes(&self, other: &Self) -> (less: bool) {
        bytes_precede(&self.name, &other.name)
    }

    fn duplicate(&self) -> (copy: Self) {
        Xattr { name: copy_bytes(&self.name), value: copy_bytes(&self.value) }
    }
}

/// The extended attributes of one inode, ascending by name.
#[derive(Clone, Debug, Eq, PartialEq)]
pub struct XattrSet {
    pub entries: Vec<Xattr>,
}

impl View for XattrSet {
    type V = Map<Seq<u8>, Seq<u8>>;

    open spec fn view(&self) -> Map<Seq<u8>, Seq<u8>> {
        xattr_map(self.entries@)
    }
}

/// Where the attribute called `name` stands.
pub open spec fn xattr_index(entries: Seq<Xattr>, name: Seq<u8>) -> int {
    choose|i: int| 0 <= i < entries.len() && (#[trigger] entries[i]).name@ == name
}

/// The values of attributes by name.
pub open spec fn xattr_map(entries: Seq<Xattr>) -> Map<Seq<u8>, Seq<u8>> {
    Map::new(
        |name: Seq<u8>|
            exists|i: int| 0 <= i < entries.len() && (#[trigger] entries[i]).name@ == name,
        |name: Seq<u8>| entries[xattr_index(entries, name)].value@,
    )
}

impl XattrSet {
    /// The entries are strictly ascending by name.
    pub open spec fn well_formed(&self) -> bool {
        ascending(keys_of(self.entries@))
    }

    pub fn new() -> (set: Self)
        ensures
            set@ == Map::<Seq<u8>, Seq<u8>>::empty(),
            set.well_formed(),
    {
        let set = XattrSet { entries: Vec::new() };
        assert(set@ =~= Map::<Seq<u8>, Seq<u8>>::empty());
        set
    }

    /// The value of the attribute called `name`.
    pub fn get(&self, name: &[u8]) -> (value: Option<&Vec<u8>>)
        requires
            self.well_formed(),
        ensures
            match value {
                Some(value) => self@.contains_key(name@) && self@[name@] == value@,
                None => !self@.contains_key(name@),
            },
    {
        let wanted = Xattr { name: copy_bytes(name), value: Vec::new() };
        let (at, present): (usize, bool) = locate(&self.entries, &wanted);
        proof {
            lemma_xattr_lookup(self.entries@, name@);
        }
        if present {
            assert(self.entries@[at as int].key() == wanted.key());
            assert(self.entries@[at as int].name@ == name@);
            Some(&self.entries[at].value)
        } else {
            None
        }
    }

    /// Adds an attribute, unless one of that name is there.
    pub fn insert(&mut self, name: Vec<u8>, value: Vec<u8>) -> (inserted: bool)
        requires
            old(self).well_formed(),
        ensures
            final(self).well_formed(),
            inserted == !old(self)@.contains_key(name@),
            inserted ==> final(self)@ == old(self)@.insert(name@, value@),
            !inserted ==> final(self)@ == old(self)@,
    {
        let ghost before = self.entries@;
        let ghost wanted = name@;
        let ghost stored = value@;
        let item = Xattr { name, value };
        proof {
            lemma_xattr_lookup(before, wanted);
        }
        let (at, present): (usize, bool) = locate(&self.entries, &item);
        let ghost key = item.key();
        if present {
            return false;
        }
        let ghost pushed = item;
        self.entries.insert(at, item);
        proof {
            let after = self.entries@;
            assert(after == before.insert(at as int, pushed));
            let before_keys = keys_of(before);
            let after_keys = keys_of(after);
            assert(after_keys =~= before_keys.insert(at as int, key));
            assert forall|i: int, j: int| 0 <= i < j < after_keys.len() implies key_less(
                #[trigger] after_keys[i],
                #[trigger] after_keys[j],
            ) by {
                let bi = if i < at { i } else { i - 1 };
                let bj = if j < at { j } else { j - 1 };
                if i != at && j != at {
                    assert(key_less(before_keys[bi], before_keys[bj]));
                } else if i == at {
                    assert(after_keys[j] == before_keys[bj]);
                } else {
                    assert(after_keys[i] == before_keys[bi]);
                }
            }
            assert forall|n: Seq<u8>| xattr_map(after).contains_key(n) == xattr_map(before).insert(
                wanted,
                stored,
            ).contains_key(n) by {
                if xattr_map(before).contains_key(n) {
                    let i = choose|i: int| 0 <= i < before.len() && (#[trigger] before[i]).name@ == n;
                    let j = if i < at { i } else { i + 1 };
                    assert(after[j] == before[i]);
                }
                assert(after[at as int] == pushed);
                if xattr_map(after).contains_key(n) && n != wanted {
                    let i = choose|i: int| 0 <= i < after.len() && (#[trigger] after[i]).name@ == n;
                    let j = if i < at { i } else { i - 1 };
                    assert(before[j] == after[i]);
                }
            }
            assert forall|n: Seq<u8>| xattr_map(after).contains_key(n) implies xattr_map(after)[n]
                == xattr_map(before).insert(wanted, stored)[n] by {
                let i = choose|i: int| 0 <= i < after.len() && (#[trigger] after[i]).name@ == n;
                lemma_xattr_value(after, i);
                assert(after[at as int] == pushed);
                if n == wanted {
                    lemma_xattr_value(after, at as int);
                } else {
                    let j = if i < at { i } else { i - 1 };
                    assert(before[j] == after[i]);
                    lemma_xattr_value(before, j);
                }
            }
            assert(xattr_map(after) =~= xattr_map(before).insert(wanted, stored));
        }
        true
    }
}

proof fn lemma_xattr_value(entries: Seq<Xattr>, i: int)
    requires
        ascending(keys_of(entries)),
        0 <= i < entries.len(),
    ensures
        xattr_map(entries).contains_key(entries[i].name@),
        xattr_map(entries)[entries[i].name@] == entries[i].value@,
{
    let name = entries[i].name@;
    let j = xattr_index(entries, name);
    let keys = keys_of(entries);
    assert(keys[i] == entries[i].key());
    assert(keys[j] == entries[j].key());
    assert(keys[i] =~= keys[j]);
    law_key_order(keys[i], keys[j], keys[i]);
    assert(i == j);
}

proof fn lemma_xattr_lookup(entries: Seq<Xattr>, name: Seq<u8>)
    requires
        ascending(keys_of(entries)),
    ensures
        xattr_map(entries).contains_key(name) == key_set(entries).contains(
            (Key { first: 0, second: 0, name }),
        ),
        forall|i: int|
            0 <= i < entries.len() && (#[trigger] entries[i]).name@ == name
                ==> xattr_map(entries)[name] == entries[i].value@,
{
    let keys = keys_of(entries);
    let key = Key { first: 0, second: 0, name };
    if xattr_map(entries).contains_key(name) {
        let i = choose|i: int| 0 <= i < entries.len() && (#[trigger] entries[i]).name@ == name;
        assert(keys[i] == key);
        assert(keys.to_set().contains(keys[i]));
    }
    if keys.to_set().contains(key) {
        let i = choose|i: int| 0 <= i < keys.len() && keys[i] == key;
        assert(entries[i].name@ == name);
    }
    assert forall|i: int| 0 <= i < entries.len() && (#[trigger] entries[i]).name@ == name implies xattr_map(
        entries,
    )[name] == entries[i].value@ by {
        lemma_xattr_value(entries, i);
    }
}

/// A parsed stream.
#[derive(Clone, Debug, Eq, PartialEq)]
pub struct ChangedObjectsV2 {
    pub header: ChangedObjectsV2Header,
    pub manifest: ChangedObjectsManifest,
    pub target_objects: BTreeMap<u64, TargetObjectMetadata>,
    /// Holds only the objects whose relevant attributes the stream gives anew.
    pub target_security_xattrs: BTreeMap<u64, XattrSet>,
    /// Boundary changes after cancelling those present on both sides, strictly
    /// ascending.
    pub boundary_adds: Vec<SubvolumeBoundary>,
    pub boundary_deletes: Vec<SubvolumeBoundary>,
}

/// What a parsed stream holds.
#[verifier::ext_equal]
pub struct StreamView {
    pub header: ChangedObjectsV2Header,
    pub manifest: ManifestView,
    pub target_objects: Map<u64, TargetObjectMetadata>,
    pub target_security_xattrs: Map<u64, Map<Seq<u8>, Seq<u8>>>,
    pub boundary_adds: Set<Key>,
    pub boundary_deletes: Set<Key>,
}

/// The attribute maps of a map of attribute sets.
pub open spec fn xattr_views(sets: Map<u64, XattrSet>) -> Map<u64, Map<Seq<u8>, Seq<u8>>> {
    sets.map_values(|set: XattrSet| set@)
}

impl View for ChangedObjectsV2 {
    type V = StreamView;

    open spec fn view(&self) -> StreamView {
        StreamView {
            header: self.header,
            manifest: self.manifest@,
            target_objects: self.target_objects@,
            target_security_xattrs: xattr_views(self.target_security_xattrs@),
            boundary_adds: key_set(self.boundary_adds@),
            boundary_deletes: key_set(self.boundary_deletes@),
        }
    }
}

impl ChangedObjectsV2 {
    /// Every vector that stands for a set is strictly ascending.
    pub open spec fn well_formed(&self) -> bool {
        &&& self.manifest.well_formed()
        &&& ascending(keys_of(self.boundary_adds@))
        &&& ascending(keys_of(self.boundary_deletes@))
        &&& forall|ino: u64| #[trigger]
            self.target_security_xattrs@.contains_key(ino)
                ==> self.target_security_xattrs@[ino].well_formed()
    }
}

/// The header fields of a stream that is long enough.
pub open spec fn stream_header(bytes: Seq<u8>) -> ChangedObjectsV2Header {
    ChangedObjectsV2Header {
        boundary_records: le_u64(bytes, 24) & V2_BOUNDARY_RECORDS != 0,
        dirty_witness: le_u64(bytes, 24) & V2_DIRTY_WITNESS != 0,
        fs_uuid: array_16(bytes, 32),
        source_uuid: array_16(bytes, 48),
        target_uuid: array_16(bytes, 64),
        source_ctransid: le_u64(bytes, 80),
        target_ctransid: le_u64(bytes, 88),
        source_root_id: le_u64(bytes, 96),
        target_root_id: le_u64(bytes, 104),
    }
}

/// The sixteen bytes at `at`.
pub open spec fn array_16(bytes: Seq<u8>, at: int) -> [u8; 16] {
    choose|value: [u8; 16]| #[trigger] value@ == bytes.subrange(at, at + 16)
}

/// The identifier that stands for none.
pub open spec fn zero_id(id: [u8; 16]) -> bool {
    forall|i: int| 0 <= i < 16 ==> id@[i] == 0
}

/// Whether both endpoints are identified.
pub open spec fn endpoints_identified(header: ChangedObjectsV2Header) -> bool {
    &&& !zero_id(header.fs_uuid)
    &&& !zero_id(header.target_uuid)
    &&& header.target_ctransid != 0
    &&& header.target_root_id != 0
    &&& !zero_id(header.source_uuid)
    &&& header.source_ctransid != 0
    &&& header.source_root_id != 0
}

/// Why the header of a stream is not acceptable.
pub open spec fn stream_header_fault(bytes: Seq<u8>) -> Option<Seq<char>> {
    if bytes.len() < V2_HEADER_SIZE + V2_COMPLETION_SIZE || bytes.subrange(0, 16)
        != CHANGED_OBJECTS_V2_MAGIC@ {
        Some("changed-objects v2 header is absent or truncated"@)
    } else if le_u32(bytes, 16) != CHANGED_OBJECTS_V2_VERSION || le_u32(bytes, 20)
        != V2_HEADER_SIZE {
        Some("unsupported changed-objects v2 header"@)
    } else if le_u64(bytes, 24) & !V2_KNOWN_FLAGS != 0 {
        Some("unknown changed-objects v2 stream flags"@)
    } else if !endpoints_identified(stream_header(bytes)) {
        Some("invalid changed-objects v2 endpoint identity"@)
    } else {
        None
    }
}

/// A record of the stream.
#[verifier::ext_equal]
pub enum StreamRecord {
    Object { change: ObjectChange, target: Option<TargetObjectMetadata> },
    RefAdd(Key),
    RefDelete(Key),
    XattrReset(u64),
    Xattr { ino: u64, name: Seq<u8>, value: Seq<u8> },
    BoundaryAdd(Key),
    BoundaryDelete(Key),
    Extension,
}

/// The target metadata in the object record at `at`.
pub open spec fn target_at(bytes: Seq<u8>, at: int) -> TargetObjectMetadata {
    TargetObjectMetadata {
        generation: le_u64(bytes, at + 24),
        change_sequence: le_u64(bytes, at + 40),
        transid: le_u64(bytes, at + 48),
        mode: le_u64(bytes, at + 56),
        nlink: le_u64(bytes, at + 64),
        uid: le_u64(bytes, at + 72),
        gid: le_u64(bytes, at + 80),
        rdev: le_u64(bytes, at + 88),
    }
}

/// Whether target metadata can describe a living inode.
pub open spec fn living_target(target: TargetObjectMetadata) -> bool {
    target.generation != 0 && target.change_sequence != 0 && target.transid != 0 && target.nlink
        != 0
}

/// Whether a boundary record has usable fields.
pub open spec fn boundary_valid(boundary: Key) -> bool {
    boundary.first != 0 && boundary.second != 0 && entry_name(boundary.name)
}

/// Why the framing of the record at `at` is not acceptable.
pub open spec fn frame_fault(bytes: Seq<u8>, at: int) -> Option<Seq<char>> {
    let len = le_u32(bytes, at + 4) as int;
    if at + RECORD_HEADER_SIZE > bytes.len() {
        Some("changed-objects v2 lacks a completion record"@)
    } else if len < RECORD_HEADER_SIZE {
        Some("invalid changed-objects v2 record length"@)
    } else if at + len > usize::MAX {
        Some("changed-objects v2 record overflow"@)
    } else if at + len > bytes.len() {
        Some("truncated changed-objects v2 record"@)
    } else {
        None
    }
}

/// The well-framed record at `at`, or the first rule that it breaks.
pub open spec fn stream_record_at(bytes: Seq<u8>, at: int) -> Result<StreamRecord, Seq<char>> {
    let kind = le_u16(bytes, at);
    let flags = le_u16(bytes, at + 2);
    let len = le_u32(bytes, at + 4) as int;
    let named = named_at(bytes, at, len);
    let named_len = REF_RECORD_SIZE + 1 <= len <= REF_RECORD_SIZE + 255;
    if kind == RECORD_OBJECT {
        if len != V2_OBJECT_RECORD_SIZE || flags & !RECORD_TARGET_VALID != 0 {
            Err("invalid changed-object v2 object record"@)
        } else {
            match change_fault_at(bytes, at) {
                Some(fault) => Err(fault),
                None => Ok(
                    StreamRecord::Object {
                        change: change_at(bytes, at),
                        target: if flags & RECORD_TARGET_VALID != 0 {
                            Some(target_at(bytes, at))
                        } else {
                            None
                        },
                    },
                ),
            }
        }
    } else if kind == RECORD_REF_ADD || kind == RECORD_REF_DELETE {
        if flags != 0 || !named_len {
            Err("invalid changed-object v2 reference"@)
        } else {
            match reference_fault(named) {
                Some(fault) => Err(fault),
                None => if kind == RECORD_REF_ADD {
                    Ok(StreamRecord::RefAdd(named))
                } else {
                    Ok(StreamRecord::RefDelete(named))
                },
            }
        }
    } else if kind == RECORD_XATTR_RESET {
        if flags != 0 || len != V2_XATTR_RESET_SIZE {
            Err("invalid changed-object v2 xattr reset"@)
        } else {
            Ok(StreamRecord::XattrReset(le_u64(bytes, at + 8)))
        }
    } else if kind == RECORD_XATTR {
        let name_len = le_u32(bytes, at + 16) as int;
        let value_len = le_u32(bytes, at + 20) as int;
        if flags != 0 || len <= V2_XATTR_RECORD_SIZE {
            Err("invalid changed-object v2 xattr"@)
        } else if name_len == 0 || name_len > 255 || V2_XATTR_RECORD_SIZE + name_len + value_len
            != len {
            Err("invalid changed-object v2 xattr lengths"@)
        } else {
            let name_start = at + V2_XATTR_RECORD_SIZE;
            Ok(
                StreamRecord::Xattr {
                    ino: le_u64(bytes, at + 8),
                    name: bytes.subrange(name_start, name_start + name_len),
                    value: bytes.subrange(name_start + name_len, at + len),
                },
            )
        }
    } else if kind == RECORD_BOUNDARY_ADD || kind == RECORD_BOUNDARY_DELETE {
        if flags != 0 || !named_len {
            Err("invalid changed-object v2 boundary"@)
        } else if !boundary_valid(named) {
            Err("invalid changed-object v2 boundary fields"@)
        } else if kind == RECORD_BOUNDARY_ADD {
            Ok(StreamRecord::BoundaryAdd(named))
        } else {
            Ok(StreamRecord::BoundaryDelete(named))
        }
    } else if flags != RECORD_OPTIONAL {
        Err("unknown mandatory changed-objects v2 record"@)
    } else {
        Ok(StreamRecord::Extension)
    }
}

/// What has been collected from the records so far.
#[verifier::ext_equal]
pub struct Collected {
    pub objects: Map<u64, ObjectChange>,
    pub targets: Map<u64, TargetObjectMetadata>,
    pub adds: Set<Key>,
    pub deletes: Set<Key>,
    pub xattrs: Map<u64, Map<Seq<u8>, Seq<u8>>>,
    pub boundary_adds: Set<Key>,
    pub boundary_deletes: Set<Key>,
    pub records: nat,
}

/// Nothing collected yet.
pub open spec fn nothing_collected() -> Collected {
    Collected {
        objects: Map::empty(),
        targets: Map::empty(),
        adds: Set::empty(),
        deletes: Set::empty(),
        xattrs: Map::empty(),
        boundary_adds: Set::empty(),
        boundary_deletes: Set::empty(),
        records: 0,
    }
}

/// `collected` with one more record, which may repeat nothing.
pub open spec fn collect(collected: Collected, record: StreamRecord) -> Result<
    Collected,
    Seq<char>,
> {
    let records = collected.records + 1;
    match record {
        StreamRecord::Object { change, target } => if collected.objects.contains_key(change.ino) {
            Err("duplicate changed-object v2 inode"@)
        } else {
            let objects = collected.objects.insert(change.ino, change);
            match target {
                None => Ok(Collected { objects, records, ..collected }),
                Some(target) => if !living_target(target) || collected.targets.contains_key(
                    change.ino,
                ) {
                    Err("invalid changed-object v2 target metadata"@)
                } else {
                    Ok(
                        Collected {
                            objects,
                            targets: collected.targets.insert(change.ino, target),
                            records,
                            ..collected
                        },
                    )
                },
            }
        },
        StreamRecord::RefAdd(key) => if collected.adds.contains(key) {
            Err("duplicate changed-object v2 reference"@)
        } else {
            Ok(Collected { adds: collected.adds.insert(key), records, ..collected })
        },
        StreamRecord::RefDelete(key) => if collected.deletes.contains(key) {
            Err("duplicate changed-object v2 reference"@)
        } else {
            Ok(Collected { deletes: collected.deletes.insert(key), records, ..collected })
        },
        StreamRecord::XattrReset(ino) => if ino == 0 || collected.xattrs.contains_key(ino) {
            Err("duplicate changed-object v2 xattr reset"@)
        } else {
            Ok(
                Collected {
                    xattrs: collected.xattrs.insert(ino, Map::empty()),
                    records,
                    ..collected
                },
            )
        },
        StreamRecord::Xattr { ino, name, value } => if !collected.xattrs.contains_key(ino) {
            Err("v2 xattr appears before its reset"@)
        } else if collected.xattrs[ino].contains_key(name) {
            Err("duplicate changed-object v2 xattr name"@)
        } else {
            Ok(
                Collected {
                    xattrs: collected.xattrs.insert(
                        ino,
                        collected.xattrs[ino].insert(name, value),
                    ),
                    records,
                    ..collected
                },
            )
        },
        StreamRecord::BoundaryAdd(key) => if collected.boundary_adds.contains(key) {
            Err("duplicate changed-object v2 boundary"@)
        } else {
            Ok(
                Collected {
                    boundary_adds: collected.boundary_adds.insert(key),
                    records,
                    ..collected
                },
            )
        },
        StreamRecord::BoundaryDelete(key) => if collected.boundary_deletes.contains(key) {
            Err("duplicate changed-object v2 boundary"@)
        } else {
            Ok(
                Collected {
                    boundary_deletes: collected.boundary_deletes.insert(key),
                    records,
                    ..collected
                },
            )
        },
        StreamRecord::Extension => Ok(Collected { records, ..collected }),
    }
}

/// Why the completion record at `at` does not close a stream of `records`
/// records.
pub open spec fn completion_fault(bytes: Seq<u8>, at: int, records: nat) -> Option<Seq<char>> {
    let len = le_u32(bytes, at + 4) as int;
    if le_u16(bytes, at + 2) != 0 || len != V2_COMPLETION_SIZE || at + len != bytes.len() {
        Some("invalid changed-objects v2 completion"@)
    } else if le_u64(bytes, at + 16) > usize::MAX {
        Some("v2 stream byte count does not fit usize"@)
    } else if le_u64(bytes, at + 8) != records || le_u64(bytes, at + 16) != at || le_u32(
        bytes,
        at + 28,
    ) != 0 || crc32c_of(bytes.subrange(0, at)) != le_u32(bytes, at + 24) {
        Some("changed-objects v2 completion mismatch"@)
    } else {
        None
    }
}

/// `collected` with every record from `at` up to the completion that closes
/// the stream, or the first fault among them.
pub open spec fn collect_from(bytes: Seq<u8>, at: int, collected: Collected) -> Result<
    Collected,
    Seq<char>,
>
    decreases bytes.len() - at,
{
    match frame_fault(bytes, at) {
        Some(fault) => Err(fault),
        None => if le_u16(bytes, at) == RECORD_COMPLETION {
            match completion_fault(bytes, at, collected.records) {
                Some(fault) => Err(fault),
                None => Ok(collected),
            }
        } else {
            match stream_record_at(bytes, at) {
                Err(fault) => Err(fault),
                Ok(record) => match collect(collected, record) {
                    Err(fault) => Err(fault),
                    Ok(next) => collect_from(bytes, at + le_u32(bytes, at + 4), next),
                },
            }
        },
    }
}

/// Whether a reference belongs to an object with a reference change.
pub open spec fn belongs(objects: Map<u64, ObjectChange>, reference: Key) -> bool {
    objects.contains_key(reference.first) && objects[reference.first].change_mask & CHANGE_REF != 0
}

/// Whether every reference belongs to an object with a reference change.
pub open spec fn all_belong(objects: Map<u64, ObjectChange>, references: Set<Key>) -> bool {
    forall|key: Key| #[trigger] references.contains(key) ==> belongs(objects, key)
}

/// Whether an inode with fresh attributes survives with target metadata.
pub open spec fn survives(collected: Collected, ino: u64) -> bool {
    &&& collected.objects.contains_key(ino)
    &&& !collected.objects[ino].deleted()
    &&& collected.targets.contains_key(ino)
}

/// Whether every inode with fresh attributes survives with target metadata.
pub open spec fn all_survive(collected: Collected) -> bool {
    forall|ino: u64| #[trigger] collected.xattrs.contains_key(ino) ==> survives(collected, ino)
}

/// The stream that everything collected makes, or why its parts do not fit
/// together.
pub open spec fn conclude_stream(
    header: ChangedObjectsV2Header,
    collected: Collected,
) -> Result<StreamView, Seq<char>> {
    if !all_belong(collected.objects, collected.adds) || !all_belong(
        collected.objects,
        collected.deletes,
    ) {
        Err("v2 reference lacks a changed ref object"@)
    } else if !all_survive(collected) {
        Err("v2 xattrs lack a surviving target object"@)
    } else {
        Ok(
            StreamView {
                header,
                manifest: ManifestView {
                    objects: collected.objects,
                    ref_adds: collected.adds.difference(collected.deletes),
                    ref_deletes: collected.deletes.difference(collected.adds),
                    raw_ref_adds: collected.adds.len(),
                    raw_ref_deletes: collected.deletes.len(),
                },
                target_objects: collected.targets,
                target_security_xattrs: collected.xattrs,
                boundary_adds: collected.boundary_adds.difference(collected.boundary_deletes),
                boundary_deletes: collected.boundary_deletes.difference(collected.boundary_adds),
            },
        )
    }
}

/// The content of a stream, or its first fault.
pub open spec fn stream_of(bytes: Seq<u8>) -> Result<StreamView, Seq<char>> {
    match stream_header_fault(bytes) {
        Some(fault) => Err(fault),
        None => match collect_from(bytes, V2_HEADER_SIZE as int, nothing_collected()) {
            Err(fault) => Err(fault),
            Ok(collected) => conclude_stream(stream_header(bytes), collected),
        },
    }
}

/// Reads the sixteen bytes of a field that is there.
pub fn fixed_16(bytes: &[u8], offset: usize) -> (value: Result<[u8; 16], ParseError>)
    ensures
        match value {
            Ok(value) => offset + 16 <= bytes@.len() && value == array_16(bytes@, offset as int)
                && value@ == bytes@.subrange(offset as int, offset + 16),
            Err(error) => offset + 16 > bytes@.len() && error@ == "truncated 16-byte field"@,
        },
{
    if bytes.len() < 16 || offset > bytes.len() - 16 {
        return Err(ParseError::plain("truncated 16-byte field"));
    }
    Ok(read_array_16(bytes, offset))
}

fn read_array_16(bytes: &[u8], offset: usize) -> (value: [u8; 16])
    requires
        offset + 16 <= bytes@.len(),
    ensures
        value == array_16(bytes@, offset as int),
        value@ == bytes@.subrange(offset as int, offset + 16),
{
    let value = get_array_16(bytes, offset);
    proof {
        let other = array_16(bytes@, offset as int);
        assert(value@ == bytes@.subrange(offset as int, offset + 16));
        assert(other@ =~= value@);
        assert(other =~= value);
    }
    value
}

/// Whether an identifier stands for none.
fn is_zero_id(id: &[u8; 16]) -> (zero: bool)
    ensures
        zero == zero_id(*id),
{
    let mut at: usize = 0;
    while at < 16
        invariant
            at <= 16,
            forall|i: int| 0 <= i < at ==> id@[i] == 0,
        decreases 16 - at,
    {
        if id[at] != 0 {
            assert(id@[at as int] != 0);
            return false;
        }
        at += 1;
    }
    true
}

/// Reads and checks the header of a stream.
fn read_stream_header(bytes: &[u8]) -> (header: Result<ChangedObjectsV2Header, ParseError>)
    ensures
        match header {
            Ok(header) => stream_header_fault(bytes@) is None && header == stream_header(bytes@),
            Err(error) => stream_header_fault(bytes@) == Some(error@),
        },
{
    if bytes.len() < V2_HEADER_SIZE + V2_COMPLETION_SIZE {
        return Err(ParseError::plain("changed-objects v2 header is absent or truncated"));
    }
    let magic = get_range(bytes, 0, 16);
    let expected: [u8; 16] = CHANGED_OBJECTS_V2_MAGIC;
    if !same_bytes(&magic, &expected) {
        return Err(ParseError::plain("changed-objects v2 header is absent or truncated"));
    }
    if get_le_u32(bytes, 16) != CHANGED_OBJECTS_V2_VERSION || get_le_u32(bytes, 20) as usize
        != V2_HEADER_SIZE {
        return Err(ParseError::plain("unsupported changed-objects v2 header"));
    }
    let flags: u64 = get_le_u64(bytes, 24);
    if flags & !V2_KNOWN_FLAGS != 0 {
        return Err(ParseError::plain("unknown changed-objects v2 stream flags"));
    }
    let header = ChangedObjectsV2Header {
        boundary_records: flags & V2_BOUNDARY_RECORDS != 0,
        dirty_witness: flags & V2_DIRTY_WITNESS != 0,
        fs_uuid: read_array_16(bytes, 32),
        source_uuid: read_array_16(bytes, 48),
        target_uuid: read_array_16(bytes, 64),
        source_ctransid: get_le_u64(bytes, 80),
        target_ctransid: get_le_u64(bytes, 88),
        source_root_id: get_le_u64(bytes, 96),
        target_root_id: get_le_u64(bytes, 104),
    };
    if is_zero_id(&header.fs_uuid) || is_zero_id(&header.target_uuid) || header.target_ctransid == 0
        || header.target_root_id == 0 || is_zero_id(&header.source_uuid) || header.source_ctransid
        == 0 || header.source_root_id == 0 {
        return Err(ParseError::plain("invalid changed-objects v2 endpoint identity"));
    }
    Ok(header)
}

/// A record as read.
pub enum ReadStreamRecord {
    Object { change: ObjectChange, target: Option<TargetObjectMetadata> },
    RefAdd(Reference),
    RefDelete(Reference),
    XattrReset(u64),
    Xattr { ino: u64, name: Vec<u8>, value: Vec<u8> },
    BoundaryAdd(SubvolumeBoundary),
    BoundaryDelete(SubvolumeBoundary),
    Extension,
}

impl ReadStreamRecord {
    pub open spec fn model(&self) -> StreamRecord {
        match self {
            ReadStreamRecord::Object { change, target } => StreamRecord::Object {
                change: *change,
                target: *target,
            },
            ReadStreamRecord::RefAdd(reference) => StreamRecord::RefAdd(reference.key()),
            ReadStreamRecord::RefDelete(reference) => StreamRecord::RefDelete(reference.key()),
            ReadStreamRecord::XattrReset(ino) => StreamRecord::XattrReset(*ino),
            ReadStreamRecord::Xattr { ino, name, value } => StreamRecord::Xattr {
                ino: *ino,
                name: name@,
                value: value@,
            },
            ReadStreamRecord::BoundaryAdd(boundary) => StreamRecord::BoundaryAdd(boundary.key()),
            ReadStreamRecord::BoundaryDelete(boundary) => StreamRecord::BoundaryDelete(
                boundary.key(),
            ),
            ReadStreamRecord::Extension => StreamRecord::Extension,
        }
    }
}

/// Checks the framing of the record at `at`.
fn read_frame(bytes: &[u8], at: usize) -> (len: Result<usize, ParseError>)
    requires
        at <= bytes@.len(),
    ensures
        match len {
            Ok(len) => frame_fault(bytes@, at as int) is None && len == le_u32(
                bytes@,
                at + 4,
            ),
            Err(error) => frame_fault(bytes@, at as int) == Some(error@),
        },
{
    let size: usize = bytes.len();
    if size - at < RECORD_HEADER_SIZE {
        return Err(ParseError::plain("changed-objects v2 lacks a completion record"));
    }
    let len: usize = get_le_u32(bytes, at + 4) as usize;
    if len < RECORD_HEADER_SIZE {
        return Err(ParseError::plain("invalid changed-objects v2 record length"));
    }
    if at > usize::MAX - len {
        return Err(ParseError::plain("changed-objects v2 record overflow"));
    }
    if at + len > size {
        return Err(ParseError::plain("truncated changed-objects v2 record"));
    }
    Ok(len)
}

/// Reads the well-framed record at `at`.
fn read_stream_record(bytes: &[u8], at: usize) -> (record: Result<ReadStreamRecord, ParseError>)
    requires
        frame_fault(bytes@, at as int) is None,
    ensures
        match record {
            Ok(record) => stream_record_at(bytes@, at as int) == Ok::<StreamRecord, Seq<char>>(
                record.model(),
            ),
            Err(error) => stream_record_at(bytes@, at as int) == Err::<StreamRecord, Seq<char>>(
                error@,
            ),
        },
{
    let size: usize = bytes.len();
    let kind: u16 = get_le_u16(bytes, at);
    let flags: u16 = get_le_u16(bytes, at + 2);
    let len: usize = get_le_u32(bytes, at + 4) as usize;
    let end: usize = at + len;
    let named_len: bool = REF_RECORD_SIZE + 1 <= len && len <= REF_RECORD_SIZE + 255;
    if kind == RECORD_OBJECT {
        if len != V2_OBJECT_RECORD_SIZE || flags & !RECORD_TARGET_VALID != 0 {
            return Err(ParseError::plain("invalid changed-object v2 object record"));
        }
        let change = match read_change(bytes, at) {
            Err(error) => {
                return Err(error);
            },
            Ok(change) => change,
        };
        let target = if flags & RECORD_TARGET_VALID != 0 {
            Some(
                TargetObjectMetadata {
                    generation: get_le_u64(bytes, at + 24),
                    change_sequence: get_le_u64(bytes, at + 40),
                    transid: get_le_u64(bytes, at + 48),
                    mode: get_le_u64(bytes, at + 56),
                    nlink: get_le_u64(bytes, at + 64),
                    uid: get_le_u64(bytes, at + 72),
                    gid: get_le_u64(bytes, at + 80),
                    rdev: get_le_u64(bytes, at + 88),
                },
            )
        } else {
            None
        };
        return Ok(ReadStreamRecord::Object { change, target });
    }
    if kind == RECORD_REF_ADD || kind == RECORD_REF_DELETE {
        if flags != 0 || !named_len {
            return Err(ParseError::plain("invalid changed-object v2 reference"));
        }
        let reference = Reference {
            ino: get_le_u64(bytes, at + 8),
            parent_ino: get_le_u64(bytes, at + 16),
            name: get_range(bytes, at + REF_RECORD_SIZE, end),
        };
        return match validate_reference(&reference) {
            Err(error) => Err(error),
            Ok(_) => if kind == RECORD_REF_ADD {
                Ok(ReadStreamRecord::RefAdd(reference))
            } else {
                Ok(ReadStreamRecord::RefDelete(reference))
            },
        };
    }
    if kind == RECORD_XATTR_RESET {
        if flags != 0 || len != V2_XATTR_RESET_SIZE {
            return Err(ParseError::plain("invalid changed-object v2 xattr reset"));
        }
        return Ok(ReadStreamRecord::XattrReset(get_le_u64(bytes, at + 8)));
    }
    if kind == RECORD_XATTR {
        if flags != 0 || len <= V2_XATTR_RECORD_SIZE {
            return Err(ParseError::plain("invalid changed-object v2 xattr"));
        }
        let ino: u64 = get_le_u64(bytes, at + 8);
        let name_len: usize = get_le_u32(bytes, at + 16) as usize;
        let value_len: u64 = get_le_u32(bytes, at + 20) as u64;
        if name_len == 0 || name_len > 255 || V2_XATTR_RECORD_SIZE as u64 + name_len as u64
            + value_len != len as u64 {
            return Err(ParseError::plain("invalid changed-object v2 xattr lengths"));
        }
        let name_start: usize = at + V2_XATTR_RECORD_SIZE;
        let value_start: usize = name_start + name_len;
        return Ok(
            ReadStreamRecord::Xattr {
                ino,
                name: get_range(bytes, name_start, value_start),
                value: get_range(bytes, value_start, end),
            },
        );
    }
    if kind == RECORD_BOUNDARY_ADD || kind == RECORD_BOUNDARY_DELETE {
        if flags != 0 || !named_len {
            return Err(ParseError::plain("invalid changed-object v2 boundary"));
        }
        let boundary = SubvolumeBoundary {
            parent_ino: get_le_u64(bytes, at + 8),
            child_root_id: get_le_u64(bytes, at + 16),
            name: get_range(bytes, at + REF_RECORD_SIZE, end),
        };
        if boundary.parent_ino == 0 || boundary.child_root_id == 0 || !is_entry_name(
            &boundary.name,
        ) {
            return Err(ParseError::plain("invalid changed-object v2 boundary fields"));
        }
        return if kind == RECORD_BOUNDARY_ADD {
            Ok(ReadStreamRecord::BoundaryAdd(boundary))
        } else {
            Ok(ReadStreamRecord::BoundaryDelete(boundary))
        };
    }
    if flags != RECORD_OPTIONAL {
        return Err(ParseError::plain("unknown mandatory changed-objects v2 record"));
    }
    Ok(ReadStreamRecord::Extension)
}

/// Everything collected from a stream so far.
struct Collection {
    objects: BTreeMap<u64, ObjectChange>,
    targets: BTreeMap<u64, TargetObjectMetadata>,
    adds: Vec<Reference>,
    deletes: Vec<Reference>,
    xattrs: BTreeMap<u64, XattrSet>,
    boundary_adds: Vec<SubvolumeBoundary>,
    boundary_deletes: Vec<SubvolumeBoundary>,
    records: u64,
}

impl Collection {
    spec fn model(&self) -> Collected {
        Collected {
            objects: self.objects@,
            targets: self.targets@,
            adds: key_set(self.adds@),
            deletes: key_set(self.deletes@),
            xattrs: xattr_views(self.xattrs@),
            boundary_adds: key_set(self.boundary_adds@),
            boundary_deletes: key_set(self.boundary_deletes@),
            records: self.records as nat,
        }
    }

    spec fn well_formed(&self) -> bool {
        &&& ascending(keys_of(self.adds@))
        &&& ascending(keys_of(self.deletes@))
        &&& ascending(keys_of(self.boundary_adds@))
        &&& ascending(keys_of(self.boundary_deletes@))
        &&& forall|ino: u64| #[trigger]
            self.xattrs@.contains_key(ino) ==> self.xattrs@[ino].well_formed()
    }

    fn new() -> (collection: Self)
        ensures
            collection.model() == nothing_collected(),
            collection.well_formed(),
    {
        let collection = Collection {
            objects: BTreeMap::new(),
            targets: BTreeMap::new(),
            adds: Vec::new(),
            deletes: Vec::new(),
            xattrs: BTreeMap::new(),
            boundary_adds: Vec::new(),
            boundary_deletes: Vec::new(),
            records: 0,
        };
        assert(collection.model() =~= nothing_collected());
        collection
    }

    fn add_object(&mut self, change: ObjectChange, target: Option<TargetObjectMetadata>) -> (
        added: Result<(), ParseError>)
        requires
            old(self).well_formed(),
            old(self).records < u64::MAX,
        ensures
            final(self).well_formed(),
            match added {
                Ok(_) => collect(
                    old(self).model(),
                    StreamRecord::Object { change, target },
                ) == Ok::<Collected, Seq<char>>(final(self).model()),
                Err(error) => collect(
                    old(self).model(),
                    StreamRecord::Object { change, target },
                ) == Err::<Collected, Seq<char>>(error@),
            },
    {
        if self.objects.insert(change.ino, change).is_some() {
            return Err(ParseError::plain("duplicate changed-object v2 inode"));
        }
        match target {
            Some(target) => {
                if target.generation == 0 || target.change_sequence == 0 || target.transid == 0
                    || target.nlink == 0 || self.targets.insert(change.ino, target).is_some() {
                    return Err(ParseError::plain("invalid changed-object v2 target metadata"));
                }
            },
            None => {},
        }
        self.records = self.records + 1;
        Ok(())
    }

    fn reset_xattrs(&mut self, ino: u64) -> (added: Result<(), ParseError>)
        requires
            old(self).well_formed(),
            old(self).records < u64::MAX,
        ensures
            final(self).well_formed(),
            match added {
                Ok(_) => collect(old(self).model(), StreamRecord::XattrReset(ino)) == Ok::<
                    Collected,
                    Seq<char>,
                >(final(self).model()),
                Err(error) => collect(old(self).model(), StreamRecord::XattrReset(ino)) == Err::<
                    Collected,
                    Seq<char>,
                >(error@),
            },
    {
        if ino == 0 || self.xattrs.contains_key(&ino) {
            return Err(ParseError::plain("duplicate changed-object v2 xattr reset"));
        }
        let empty = XattrSet::new();
        self.xattrs.insert(ino, empty);
        self.records = self.records + 1;
        assert(xattr_views(self.xattrs@) =~= xattr_views(old(self).xattrs@).insert(
            ino,
            Map::empty(),
        ));
        Ok(())
    }

    fn add_xattr(&mut self, ino: u64, name: Vec<u8>, value: Vec<u8>) -> (added: Result<
        (),
        ParseError,
    >)
        requires
            old(self).well_formed(),
            old(self).records < u64::MAX,
        ensures
            match added {
                Ok(_) => final(self).well_formed() && collect(
                    old(self).model(),
                    (StreamRecord::Xattr { ino, name: name@, value: value@ }),
                ) == Ok::<Collected, Seq<char>>(final(self).model()),
                Err(error) => collect(
                    old(self).model(),
                    (StreamRecord::Xattr { ino, name: name@, value: value@ }),
                ) == Err::<Collected, Seq<char>>(error@),
            },
    {
        let ghost before = self.xattrs@;
        let mut set = match self.xattrs.remove(&ino) {
            None => {
                return Err(ParseError::plain("v2 xattr appears before its reset"));
            },
            Some(set) => set,
        };
        let ghost added_name = name@;
        let ghost added_value = value@;
        let ghost old_set = set@;
        assert(xattr_views(before)[ino] == set@);
        if !set.insert(name, value) {
            return Err(ParseError::plain("duplicate changed-object v2 xattr name"));
        }
        self.xattrs.insert(ino, set);
        self.records = self.records + 1;
        assert(xattr_views(self.xattrs@) =~= xattr_views(before).insert(
            ino,
            old_set.insert(added_name, added_value),
        ));
        Ok(())
    }

    fn add(&mut self, record: ReadStreamRecord) -> (added: Result<(), ParseError>)
        requires
            old(self).well_formed(),
            old(self).records < u64::MAX,
        ensures
            match added {
                Ok(_) => final(self).well_formed() && collect(old(self).model(), record.model())
                    == Ok::<Collected, Seq<char>>(final(self).model()),
                Err(error) => collect(old(self).model(), record.model()) == Err::<
                    Collected,
                    Seq<char>,
                >(error@),
            },
    {
        match record {
            ReadStreamRecord::Object { change, target } => self.add_object(change, target),
            ReadStreamRecord::XattrReset(ino) => self.reset_xattrs(ino),
            ReadStreamRecord::Xattr { ino, name, value } => self.add_xattr(ino, name, value),
            ReadStreamRecord::RefAdd(reference) => {
                if !insert(&mut self.adds, reference) {
                    return Err(ParseError::plain("duplicate changed-object v2 reference"));
                }
                self.records = self.records + 1;
                Ok(())
            },
            ReadStreamRecord::RefDelete(reference) => {
                if !insert(&mut self.deletes, reference) {
                    return Err(ParseError::plain("duplicate changed-object v2 reference"));
                }
                self.records = self.records + 1;
                Ok(())
            },
            ReadStreamRecord::BoundaryAdd(boundary) => {
                if !insert(&mut self.boundary_adds, boundary) {
                    return Err(ParseError::plain("duplicate changed-object v2 boundary"));
                }
                self.records = self.records + 1;
                Ok(())
            },
            ReadStreamRecord::BoundaryDelete(boundary) => {
                if !insert(&mut self.boundary_deletes, boundary) {
                    return Err(ParseError::plain("duplicate changed-object v2 boundary"));
                }
                self.records = self.records + 1;
                Ok(())
            },
            ReadStreamRecord::Extension => {
                self.records = self.records + 1;
                Ok(())
            },
        }
    }
}

/// Checks that the completion record at `at` closes the stream.
fn check_completion(bytes: &[u8], at: usize, records: u64) -> (checked: Result<(), ParseError>)
    requires
        frame_fault(bytes@, at as int) is None,
    ensures
        match checked {
            Ok(_) => completion_fault(bytes@, at as int, records as nat) is None,
            Err(error) => completion_fault(bytes@, at as int, records as nat) == Some(error@),
        },
{
    let size: usize = bytes.len();
    let len: usize = get_le_u32(bytes, at + 4) as usize;
    if get_le_u16(bytes, at + 2) != 0 || len != V2_COMPLETION_SIZE || at + len != size {
        return Err(ParseError::plain("invalid changed-objects v2 completion"));
    }
    let declared_records: u64 = get_le_u64(bytes, at + 8);
    let declared_bytes: u64 = get_le_u64(bytes, at + 16);
    if declared_bytes > usize::MAX as u64 {
        return Err(ParseError::plain("v2 stream byte count does not fit usize"));
    }
    let covered = get_range(bytes, 0, at);
    if declared_records != records || declared_bytes as usize != at || get_le_u32(bytes, at + 28)
        != 0 || crc32c(&covered) != get_le_u32(bytes, at + 24) {
        return Err(ParseError::plain("changed-objects v2 completion mismatch"));
    }
    Ok(())
}

/// Whether every reference belongs to an object with a reference change.
fn check_all_belong(objects: &BTreeMap<u64, ObjectChange>, references: &Vec<Reference>) -> (
    belong: bool)
    ensures
        belong == all_belong(objects@, key_set(references@)),
{
    let ghost keys = keys_of(references@);
    let mut at: usize = 0;
    while at < references.len()
        invariant
            at <= references.len(),
            keys == keys_of(references@),
            forall|i: int| 0 <= i < at ==> belongs(objects@, #[trigger] keys[i]),
        decreases references.len() - at,
    {
        assert(keys[at as int] == references@[at as int].key());
        let belongs_here: bool = match objects.get(&references[at].ino) {
            None => false,
            Some(object) => object.change_mask & CHANGE_REF != 0,
        };
        if !belongs_here {
            assert(keys.to_set().contains(keys[at as int]));
            return false;
        }
        at += 1;
    }
    assert forall|key: Key| #[trigger] keys.to_set().contains(key) implies belongs(objects@, key) by {
        let i = choose|i: int| 0 <= i < keys.len() && keys[i] == key;
    }
    true
}

/// Whether every inode with fresh attributes survives with target metadata.
fn check_all_survive(collection: &Collection) -> (survive: bool)
    ensures
        survive == all_survive(collection.model()),
{
    let inos = sorted_keys(&collection.xattrs);
    let mut at: usize = 0;
    while at < inos.len()
        invariant
            at <= inos.len(),
            inos@.to_set() == collection.xattrs@.dom(),
            forall|i: int| 0 <= i < at ==> survives(collection.model(), #[trigger] inos@[i]),
        decreases inos.len() - at,
    {
        let ino: u64 = inos[at];
        let living: bool = match collection.objects.get(&ino) {
            None => false,
            Some(object) => !object.is_deleted(),
        };
        if !living || !collection.targets.contains_key(&ino) {
            assert(inos@.to_set().contains(inos@[at as int]));
            assert(collection.model().xattrs.contains_key(ino));
            return false;
        }
        at += 1;
    }
    assert forall|ino: u64| #[trigger] collection.model().xattrs.contains_key(ino) implies survives(
        collection.model(),
        ino,
    ) by {
        assert(inos@.to_set().contains(ino));
        let i = choose|i: int| 0 <= i < inos@.len() && inos@[i] == ino;
    }
    true
}

/// Parses an authenticated stream.
pub fn parse_changed_objects_v2(bytes: &[u8]) -> (parsed: Result<ChangedObjectsV2, ParseError>)
    ensures
        match parsed {
            Ok(stream) => stream_of(bytes@) == Ok::<StreamView, Seq<char>>(stream@)
                && stream.well_formed(),
            Err(error) => stream_of(bytes@) == Err::<StreamView, Seq<char>>(error@),
        },
{
    let header = match read_stream_header(bytes) {
        Err(error) => {
            return Err(error);
        },
        Ok(header) => header,
    };
    let mut collection = Collection::new();
    let mut offset: usize = V2_HEADER_SIZE;
    loop
        invariant
            stream_header_fault(bytes@) is None,
            V2_HEADER_SIZE <= offset <= bytes.len(),
            collection.records <= offset,
            collection.well_formed(),
            collect_from(bytes@, V2_HEADER_SIZE as int, nothing_collected()) == collect_from(
                bytes@,
                offset as int,
                collection.model(),
            ),
        ensures
            collection.well_formed(),
            collect_from(bytes@, V2_HEADER_SIZE as int, nothing_collected()) == Ok::<
                Collected,
                Seq<char>,
            >(collection.model()),
        decreases bytes.len() - offset,
    {
        let len: usize = match read_frame(bytes, offset) {
            Err(error) => {
                return Err(error);
            },
            Ok(len) => len,
        };
        if get_le_u16(bytes, offset) == RECORD_COMPLETION {
            match check_completion(bytes, offset, collection.records) {
                Err(error) => {
                    return Err(error);
                },
                Ok(_) => {},
            }
            break ;
        }
        let record = match read_stream_record(bytes, offset) {
            Err(error) => {
                return Err(error);
            },
            Ok(record) => record,
        };
        let ghost before = collection.model();
        let ghost model = record.model();
        match collection.add(record) {
            Err(error) => {
                return Err(error);
            },
            Ok(_) => {},
        }
        assert(collection.records == before.records + 1);
        offset = offset + len;
    }
    if !check_all_belong(&collection.objects, &collection.adds) || !check_all_belong(
        &collection.objects,
        &collection.deletes,
    ) {
        return Err(ParseError::plain("v2 reference lacks a changed ref object"));
    }
    if !check_all_survive(&collection) {
        return Err(ParseError::plain("v2 xattrs lack a surviving target object"));
    }
    proof {
        lemma_ascending_len(keys_of(collection.adds@));
        lemma_ascending_len(keys_of(collection.deletes@));
    }
    let ref_adds = difference(&collection.adds, &collection.deletes);
    let ref_deletes = difference(&collection.deletes, &collection.adds);
    let boundary_adds = difference(&collection.boundary_adds, &collection.boundary_deletes);
    let boundary_deletes = difference(&collection.boundary_deletes, &collection.boundary_adds);
    Ok(
        ChangedObjectsV2 {
            header,
            manifest: ChangedObjectsManifest {
                objects: collection.objects,
                ref_adds,
                ref_deletes,
                raw_ref_adds: collection.adds.len(),
                raw_ref_deletes: collection.deletes.len(),
            },
            target_objects: collection.targets,
            target_security_xattrs: collection.xattrs,
            boundary_adds,
            boundary_deletes,
        },
    )
}

/// What a parsed stream adds, it does not delete, neither of entries nor of
/// subvolume boundaries.
pub proof fn law_changes_are_cancelled(bytes: Seq<u8>)
    ensures
        stream_of(bytes) matches Ok(stream) ==> stream.manifest.ref_adds.disjoint(
            stream.manifest.ref_deletes,
        ) && stream.boundary_adds.disjoint(stream.boundary_deletes),
{
}

} // verus!
