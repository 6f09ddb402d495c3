//! The changed-object manifest: what differs between two immutable snapshots.

pub use crate::manifest_v2::{
    parse_changed_objects_v2, ChangedObjectsV2, ChangedObjectsV2Header, SubvolumeBoundary,
    TargetObjectMetadata,
};
use crate::bytes::{be_bytes, get_le_u16, get_le_u32, get_le_u64, get_range, has_byte};
use crate::bytes::{le_u16, le_u32, le_u64, push_be_u64, push_bytes};
use crate::digest::{sha256, sha256_digest};
use crate::inodes::{numbers_in_order, sorted_keys};
use crate::ordered::{ascending, bytes_precede, difference, in_order, insert, key_set};
use crate::ordered::{keys_of, law_in_order, law_key_order, Key, Keyed};
use crate::text::{
    copy_bytes, decimal, ending_in_number, numeral, same_bytes, with_hex, with_number,
};
use std::collections::BTreeMap;
use vstd::prelude::*;

verus! {

broadcast use vstd::std_specs::btree::group_btree_axioms;

/// `btrfs-changes`, padded with zeros.
pub const CHANGED_OBJECTS_MAGIC: [u8; 16] = [
    98, 116, 114, 102, 115, 45, 99, 104, 97, 110, 103, 101, 115, 0, 0, 0,
];

pub const CHANGED_OBJECTS_VERSION: u32 = 1;

/// `btrfs-objects-v2`.
pub const CHANGED_OBJECTS_V2_MAGIC: [u8; 16] = [
    98, 116, 114, 102, 115, 45, 111, 98, 106, 101, 99, 116, 115, 45, 118, 50,
];

pub const CHANGED_OBJECTS_V2_VERSION: u32 = 2;

pub const CHANGE_INODE: u64 = 1;

pub const CHANGE_REF: u64 = 2;

pub const CHANGE_XATTR: u64 = 4;

pub const CHANGE_FILE_DATA: u64 = 8;

pub const CHANGE_VERITY: u64 = 16;

pub const CHANGE_CREATED: u64 = 32;

pub const CHANGE_DELETED: u64 = 64;

pub const CHANGE_DIR_ENTRIES: u64 = 128;

/// Every change bit that has a meaning.
pub const CHANGE_MASK: u64 = 255;

pub const HEADER_SIZE: usize = 24;

pub const RECORD_HEADER_SIZE: usize = 8;

pub const OBJECT_RECORD_SIZE: usize = 40;

pub const REF_RECORD_SIZE: usize = 24;

pub const RECORD_OBJECT: u16 = 1;

pub const RECORD_REF_ADD: u16 = 2;

pub const RECORD_REF_DELETE: u16 = 3;

/// How one inode changed between the two endpoints. A generation is absent
/// where the stream carries zero.
#[derive(Clone, Copy, Debug, Eq, PartialEq)]
pub struct ObjectChange {
    pub ino: u64,
    pub old_generation: Option<u64>,
    pub new_generation: Option<u64>,
    pub change_mask: u64,
}

impl ObjectChange {
    pub open spec fn created(self) -> bool {
        self.change_mask & CHANGE_CREATED != 0
    }

    pub open spec fn deleted(self) -> bool {
        self.change_mask & CHANGE_DELETED != 0
    }

    pub fn is_created(self) -> (created: bool)
        ensures
            created == self.created(),
    {
        self.change_mask & CHANGE_CREATED != 0
    }

    pub fn is_deleted(self) -> (deleted: bool)
        ensures
            deleted == self.deleted(),
    {
        self.change_mask & CHANGE_DELETED != 0
    }

    /// The inode number was freed and used again.
    pub fn is_replaced(self) -> (replaced: bool)
        ensures
            replaced == (self.created() && self.deleted()),
    {
        self.is_created() && self.is_deleted()
    }
}

/// A directory entry that names an inode.
#[derive(Clone, Debug, Eq, Ord, PartialEq, PartialOrd)]
pub struct Reference {
    pub ino: u64,
    pub parent_ino: u64,
    pub name: Vec<u8>,
}

impl Keyed for Reference {
    open spec fn key(&self) -> Key {
        Key { first: self.ino, second: self.parent_ino, name: self.name@ }
    }

    fn precedes(&self, other: &Self) -> (less: bool) {
        if self.ino != other.ino {
            self.ino < other.ino
        } else if self.parent_ino != other.parent_ino {
            self.parent_ino < other.parent_ino
        } else {
            bytes_precede(&self.name, &other.name)
        }
    }

    fn duplicate(&self) -> (copy: Self) {
        Reference { ino: self.ino, parent_ino: self.parent_ino, name: copy_bytes(&self.name) }
    }
}

/// The changes between two endpoints. References present on both sides have
/// been cancelled; the raw counts are those before cancelling.
#[derive(Clone, Debug, Eq, PartialEq)]
pub struct ChangedObjectsManifest {
    pub objects: BTreeMap<u64, ObjectChange>,
    /// Strictly ascending.
    pub ref_adds: Vec<Reference>,
    /// Strictly ascending.
    pub ref_deletes: Vec<Reference>,
    pub raw_ref_adds: usize,
    pub raw_ref_deletes: usize,
}

/// What a manifest holds.
#[verifier::ext_equal]
pub struct ManifestView {
    pub objects: Map<u64, ObjectChange>,
    pub ref_adds: Set<Key>,
    pub ref_deletes: Set<Key>,
    pub raw_ref_adds: nat,
    pub raw_ref_deletes: nat,
}

impl View for ChangedObjectsManifest {
    type V = ManifestView;

    open spec fn view(&self) -> ManifestView {
        ManifestView {
            objects: self.objects@,
            ref_adds: key_set(self.ref_adds@),
            ref_deletes: key_set(self.ref_deletes@),
            raw_ref_adds: self.raw_ref_adds as nat,
            raw_ref_deletes: self.raw_ref_deletes as nat,
        }
    }
}

impl ChangedObjectsManifest {
    /// The reference vectors are strictly ascending.
    pub open spec fn well_formed(&self) -> bool {
        &&& ascending(keys_of(self.ref_adds@))
        &&& ascending(keys_of(self.ref_deletes@))
    }
}

/// Why a stream is not a manifest.
#[derive(Clone, Debug, Eq, PartialEq)]
pub struct ParseError {
    message: String,
}

impl View for ParseError {
    type V = Seq<char>;

    closed spec fn view(&self) -> Seq<char> {
        self.message@
    }
}

impl ParseError {
    pub(crate) fn new(message: String) -> (error: Self)
        ensures
            error@ == message@,
    {
        ParseError { message }
    }

    pub(crate) fn plain(message: &str) -> (error: Self)
        ensures
            error@ == message@,
    {
        ParseError { message: message.to_owned() }
    }

    /// The diagnostic text.
    pub fn message(&self) -> (text: &str)
        ensures
            text@ == self@,
    {
        self.message.as_str()
    }
}

/// Reads a 16-bit field.
pub fn read_u16(bytes: &[u8], offset: usize) -> (value: Result<u16, ParseError>)
    ensures
        match value {
            Ok(value) => offset + 2 <= bytes@.len() && value == le_u16(bytes@, offset as int),
            Err(error) => offset + 2 > bytes@.len() && error@ == "truncated u16 field"@,
        },
{
    if bytes.len() < 2 || offset > bytes.len() - 2 {
        return Err(ParseError::plain("truncated u16 field"));
    }
    Ok(get_le_u16(bytes, offset))
}

/// Reads a 32-bit field.
pub fn read_u32(bytes: &[u8], offset: usize) -> (value: Result<u32, ParseError>)
    ensures
        match value {
            Ok(value) => offset + 4 <= bytes@.len() && value == le_u32(bytes@, offset as int),
            Err(error) => offset + 4 > bytes@.len() && error@ == "truncated u32 field"@,
        },
{
    if bytes.len() < 4 || offset > bytes.len() - 4 {
        return Err(ParseError::plain("truncated u32 field"));
    }
    Ok(get_le_u32(bytes, offset))
}

/// Reads a 64-bit field.
pub fn read_u64(bytes: &[u8], offset: usize) -> (value: Result<u64, ParseError>)
    ensures
        match value {
            Ok(value) => offset + 8 <= bytes@.len() && value == le_u64(bytes@, offset as int),
            Err(error) => offset + 8 > bytes@.len() && error@ == "truncated u64 field"@,
        },
{
    if bytes.len() < 8 || offset > bytes.len() - 8 {
        return Err(ParseError::plain("truncated u64 field"));
    }
    Ok(get_le_u64(bytes, offset))
}

/// The first rule that the fields of an object record break.
pub open spec fn object_fault(ino: u64, old: u64, new: u64, mask: u64) -> Option<Seq<char>> {
    let created = mask & CHANGE_CREATED != 0;
    let deleted = mask & CHANGE_DELETED != 0;
    let inode = mask & CHANGE_INODE != 0;
    if ino == 0 || mask == 0 || mask & !CHANGE_MASK != 0 {
        Some("changed-object record has invalid fields"@)
    } else if created && !deleted && (old != 0 || new == 0) {
        Some("created object has invalid generations"@)
    } else if deleted && !created && (old == 0 || new != 0) {
        Some("deleted object has invalid generations"@)
    } else if created && deleted && (old == 0 || new == 0 || old == new) {
        Some("replaced object has invalid generations"@)
    } else if !created && !deleted && ((old == 0) != (new == 0)) {
        Some("changed object has invalid generations"@)
    } else if !created && !deleted && inode && (old == 0 || new == 0) {
        Some("inode-item change has no generations"@)
    } else if (created || deleted) && !inode {
        Some("created or deleted object has no inode change"@)
    } else {
        None
    }
}

/// Checks the fields of an object record.
pub fn validate_object(ino: u64, old_generation: u64, new_generation: u64, change_mask: u64) -> (
    checked: Result<(), ParseError>)
    ensures
        match checked {
            Ok(_) => object_fault(ino, old_generation, new_generation, change_mask) is None,
            Err(error) => object_fault(ino, old_generation, new_generation, change_mask) == Some(
                error@,
            ),
        },
{
    if ino == 0 || change_mask == 0 || change_mask & !CHANGE_MASK != 0 {
        return Err(ParseError::plain("changed-object record has invalid fields"));
    }
    let created: bool = change_mask & CHANGE_CREATED != 0;
    let deleted: bool = change_mask & CHANGE_DELETED != 0;
    if created && !deleted && (old_generation != 0 || new_generation == 0) {
        return Err(ParseError::plain("created object has invalid generations"));
    }
    if deleted && !created && (old_generation == 0 || new_generation != 0) {
        return Err(ParseError::plain("deleted object has invalid generations"));
    }
    if created && deleted && (old_generation == 0 || new_generation == 0 || old_generation
        == new_generation) {
        return Err(ParseError::plain("replaced object has invalid generations"));
    }
    if !created && !deleted && ((old_generation == 0) != (new_generation == 0)) {
        return Err(ParseError::plain("changed object has invalid generations"));
    }
    if !created && !deleted && change_mask & CHANGE_INODE != 0 && (old_generation == 0
        || new_generation == 0) {
        return Err(ParseError::plain("inode-item change has no generations"));
    }
    if (created || deleted) && change_mask & CHANGE_INODE == 0 {
        return Err(ParseError::plain("created or deleted object has no inode change"));
    }
    Ok(())
}

/// Whether `name` can name a directory entry.
pub open spec fn entry_name(name: Seq<u8>) -> bool {
    name.len() > 0 && !name.contains(47u8) && !name.contains(0u8)
}

/// Whether `name` can name a directory entry.
pub fn is_entry_name(name: &[u8]) -> (valid: bool)
    ensures
        valid == entry_name(name@),
{
    name.len() > 0 && !has_byte(name, 47) && !has_byte(name, 0)
}

/// The first rule that a reference breaks.
pub open spec fn reference_fault(reference: Key) -> Option<Seq<char>> {
    if reference.first == 0 || reference.second == 0 {
        Some("changed-reference record has invalid inode"@)
    } else if !entry_name(reference.name) {
        Some("changed-reference record has invalid name"@)
    } else {
        None
    }
}

/// Checks a reference.
pub fn validate_reference(reference: &Reference) -> (checked: Result<(), ParseError>)
    ensures
        match checked {
            Ok(_) => reference_fault(reference.key()) is None,
            Err(error) => reference_fault(reference.key()) == Some(error@),
        },
{
    if reference.ino == 0 || reference.parent_ino == 0 {
        return Err(ParseError::plain("changed-reference record has invalid inode"));
    }
    if !is_entry_name(&reference.name) {
        return Err(ParseError::plain("changed-reference record has invalid name"));
    }
    Ok(())
}

/// A generation as the manifest reports it.
pub open spec fn generation_of(stored: u64) -> Option<u64> {
    if stored != 0 {
        Some(stored)
    } else {
        None
    }
}

/// The change in the object record at `at`.
pub open spec fn change_at(bytes: Seq<u8>, at: int) -> ObjectChange {
    ObjectChange {
        ino: le_u64(bytes, at + 8),
        old_generation: generation_of(le_u64(bytes, at + 16)),
        new_generation: generation_of(le_u64(bytes, at + 24)),
        change_mask: le_u64(bytes, at + 32),
    }
}

/// The first rule that the change in the object record at `at` breaks.
pub open spec fn change_fault_at(bytes: Seq<u8>, at: int) -> Option<Seq<char>> {
    object_fault(
        le_u64(bytes, at + 8),
        le_u64(bytes, at + 16),
        le_u64(bytes, at + 24),
        le_u64(bytes, at + 32),
    )
}

/// The two numbers and the name in the record of length `len` at `at`.
pub open spec fn named_at(bytes: Seq<u8>, at: int, len: int) -> Key {
    Key {
        first: le_u64(bytes, at + 8),
        second: le_u64(bytes, at + 16),
        name: bytes.subrange(at + REF_RECORD_SIZE, at + len),
    }
}

/// Reads the change in an object record.
pub(crate) fn read_change(bytes: &[u8], at: usize) -> (change: Result<ObjectChange, ParseError>)
    requires
        at + OBJECT_RECORD_SIZE <= bytes@.len(),
    ensures
        match change {
            Ok(change) => change_fault_at(bytes@, at as int) is None && change == change_at(
                bytes@,
                at as int,
            ),
            Err(error) => change_fault_at(bytes@, at as int) == Some(error@),
        },
{
    let size: usize = bytes.len();
    let ino: u64 = get_le_u64(bytes, at + 8);
    let old_generation: u64 = get_le_u64(bytes, at + 16);
    let new_generation: u64 = get_le_u64(bytes, at + 24);
    let change_mask: u64 = get_le_u64(bytes, at + 32);
    match validate_object(ino, old_generation, new_generation, change_mask) {
        Err(error) => Err(error),
        Ok(_) => Ok(
            ObjectChange {
                ino,
                old_generation: if old_generation != 0 {
                    Some(old_generation)
                } else {
                    None
                },
                new_generation: if new_generation != 0 {
                    Some(new_generation)
                } else {
                    None
                },
                change_mask,
            },
        ),
    }
}

/// A record of a changed-object stream.
#[verifier::ext_equal]
pub enum Record {
    Object(ObjectChange),
    RefAdd(Key),
    RefDelete(Key),
}

/// The record of the first format at `at`, or the first rule that it breaks.
pub open spec fn record_at(bytes: Seq<u8>, at: int) -> Result<Record, Seq<char>> {
    let kind = le_u16(bytes, at);
    let flags = le_u16(bytes, at + 2);
    let len = le_u32(bytes, at + 4) as int;
    if at + RECORD_HEADER_SIZE > usize::MAX {
        Err("changed-objects record offset overflow"@)
    } else if at + RECORD_HEADER_SIZE > bytes.len() {
        Err("changed-objects manifest has a truncated record header"@)
    } else if flags != 0 {
        Err("changed-objects record has unsupported flags "@ + "0x"@ + numeral(flags as nat, 16))
    } else if len < RECORD_HEADER_SIZE {
        Err("changed-objects record has invalid length "@ + decimal(len as nat))
    } else if at + len > usize::MAX {
        Err("changed-objects record length overflow"@)
    } else if at + len > bytes.len() {
        Err("changed-objects manifest has a truncated record"@)
    } else if kind == RECORD_OBJECT {
        if len != OBJECT_RECORD_SIZE {
            Err("changed-object record has invalid length "@ + decimal(len as nat))
        } else {
            match change_fault_at(bytes, at) {
                Some(fault) => Err(fault),
                None => Ok(Record::Object(change_at(bytes, at))),
            }
        }
    } else if kind == RECORD_REF_ADD || kind == RECORD_REF_DELETE {
        if !(REF_RECORD_SIZE + 1 <= len <= REF_RECORD_SIZE + 255) {
            Err("changed-reference record has invalid length "@ + decimal(len as nat))
        } else {
            match reference_fault(named_at(bytes, at, len)) {
                Some(fault) => Err(fault),
                None => if kind == RECORD_REF_ADD {
                    Ok(Record::RefAdd(named_at(bytes, at, len)))
                } else {
                    Ok(Record::RefDelete(named_at(bytes, at, len)))
                },
            }
        }
    } else {
        Err("changed-objects manifest has unknown record type "@ + decimal(kind as nat))
    }
}

/// Where the record at `at` ends.
pub open spec fn record_end(bytes: Seq<u8>, at: int) -> int {
    at + le_u32(bytes, at + 4)
}

/// What has been gathered from the records so far.
#[verifier::ext_equal]
pub struct Gathered {
    pub objects: Map<u64, ObjectChange>,
    pub adds: Set<Key>,
    pub deletes: Set<Key>,
}

/// Nothing gathered yet.
pub open spec fn nothing_gathered() -> Gathered {
    Gathered { objects: Map::empty(), adds: Set::empty(), deletes: Set::empty() }
}

/// `gathered` with one more record, which may repeat nothing.
pub open spec fn gather(gathered: Gathered, record: Record) -> Result<Gathered, Seq<char>> {
    match record {
        Record::Object(change) => if gathered.objects.contains_key(change.ino) {
            Err("changed-objects manifest contains duplicate inode "@ + decimal(change.ino as nat))
        } else {
            Ok(Gathered { objects: gathered.objects.insert(change.ino, change), ..gathered })
        },
        Record::RefAdd(key) => if gathered.adds.contains(key) {
            Err("changed-objects manifest contains a duplicate reference"@)
        } else {
            Ok(Gathered { adds: gathered.adds.insert(key), ..gathered })
        },
        Record::RefDelete(key) => if gathered.deletes.contains(key) {
            Err("changed-objects manifest contains a duplicate reference"@)
        } else {
            Ok(Gathered { deletes: gathered.deletes.insert(key), ..gathered })
        },
    }
}

/// `gathered` with every record from `at` to the end of the stream, or the
/// first fault among them.
pub open spec fn gather_from(bytes: Seq<u8>, at: int, gathered: Gathered) -> Result<
    Gathered,
    Seq<char>,
>
    decreases bytes.len() - at,
{
    if at >= bytes.len() {
        Ok(gathered)
    } else {
        match record_at(bytes, at) {
            Err(fault) => Err(fault),
            Ok(record) => match gather(gathered, record) {
                Err(fault) => Err(fault),
                Ok(next) => gather_from(bytes, record_end(bytes, at), next),
            },
        }
    }
}

/// Why a reference cannot belong to the objects.
pub open spec fn orphan_fault(objects: Map<u64, ObjectChange>, reference: Key) -> Option<Seq<char>> {
    if !objects.contains_key(reference.first) {
        Some("changed-reference record has no corresponding object"@)
    } else if objects[reference.first].change_mask & CHANGE_REF == 0 {
        Some("changed-reference object has no ref change"@)
    } else {
        None
    }
}

/// The fault of the first orphan among `references`.
pub open spec fn first_orphan_fault(
    objects: Map<u64, ObjectChange>,
    references: Seq<Key>,
) -> Option<Seq<char>>
    decreases references.len(),
{
    if references.len() == 0 {
        None
    } else {
        match orphan_fault(objects, references[0]) {
            Some(fault) => Some(fault),
            None => first_orphan_fault(objects, references.drop_first()),
        }
    }
}

/// Whether some reference names the inode.
pub open spec fn names_inode(references: Set<Key>, ino: u64) -> bool {
    exists|key: Key| #[trigger] references.contains(key) && key.first == ino
}

/// Whether the inode claims a reference change that no record shows.
pub open spec fn unreferenced(gathered: Gathered, ino: u64) -> bool {
    &&& gathered.objects[ino].change_mask & CHANGE_REF != 0
    &&& !names_inode(gathered.adds, ino)
    &&& !names_inode(gathered.deletes, ino)
}

/// The first of the inodes that claims a reference change that no record shows.
pub open spec fn first_unreferenced(gathered: Gathered, inos: Seq<u64>) -> Option<u64>
    decreases inos.len(),
{
    if inos.len() == 0 {
        None
    } else if unreferenced(gathered, inos[0]) {
        Some(inos[0])
    } else {
        first_unreferenced(gathered, inos.drop_first())
    }
}

/// The manifest of everything gathered, or why objects and references do not
/// fit together.
pub open spec fn conclude(gathered: Gathered) -> Result<ManifestView, Seq<char>> {
    match first_orphan_fault(
        gathered.objects,
        in_order(gathered.adds) + in_order(gathered.deletes),
    ) {
        Some(fault) => Err(fault),
        None => match first_unreferenced(gathered, numbers_in_order(gathered.objects.dom())) {
            Some(ino) => Err(
                "changed-reference object "@ + decimal(ino as nat) + " has no ref records"@,
            ),
            None => Ok(
                ManifestView {
                    objects: gathered.objects,
                    ref_adds: gathered.adds.difference(gathered.deletes),
                    ref_deletes: gathered.deletes.difference(gathered.adds),
                    raw_ref_adds: gathered.adds.len(),
                    raw_ref_deletes: gathered.deletes.len(),
                },
            ),
        },
    }
}

/// Why the header of the first format is not acceptable.
pub open spec fn header_fault(bytes: Seq<u8>) -> Option<Seq<char>> {
    if bytes.len() < HEADER_SIZE {
        Some("changed-objects manifest has a truncated header"@)
    } else if bytes.subrange(0, 16) != CHANGED_OBJECTS_MAGIC@ {
        Some("changed-objects manifest has invalid magic"@)
    } else if le_u32(bytes, 16) != CHANGED_OBJECTS_VERSION {
        Some(
            "unsupported changed-objects manifest version "@ + decimal(le_u32(bytes, 16) as nat),
        )
    } else if le_u32(bytes, 20) != HEADER_SIZE {
        Some("unsupported changed-objects header length "@ + decimal(le_u32(bytes, 20) as nat))
    } else {
        None
    }
}

/// The manifest that a stream of the first format holds, or its first fault.
pub open spec fn manifest_of(bytes: Seq<u8>) -> Result<ManifestView, Seq<char>> {
    match header_fault(bytes) {
        Some(fault) => Err(fault),
        None => match gather_from(bytes, HEADER_SIZE as int, nothing_gathered()) {
            Err(fault) => Err(fault),
            Ok(gathered) => conclude(gathered),
        },
    }
}

/// A record as read.
pub enum ReadRecord {
    Object(ObjectChange),
    RefAdd(Reference),
    RefDelete(Reference),
}

impl ReadRecord {
    pub open spec fn model(&self) -> Record {
        match self {
            ReadRecord::Object(change) => Record::Object(*change),
            ReadRecord::RefAdd(reference) => Record::RefAdd(reference.key()),
            ReadRecord::RefDelete(reference) => Record::RefDelete(reference.key()),
        }
    }
}

/// Reads the record at `at`.
fn read_record(bytes: &[u8], at: usize) -> (record: Result<ReadRecord, ParseError>)
    requires
        at < bytes@.len(),
    ensures
        match record {
            Ok(record) => record_at(bytes@, at as int) == Ok::<Record, Seq<char>>(record.model()),
            Err(error) => record_at(bytes@, at as int) == Err::<Record, Seq<char>>(error@),
        },
{
    let size: usize = bytes.len();
    if at > usize::MAX - RECORD_HEADER_SIZE {
        return Err(ParseError::plain("changed-objects record offset overflow"));
    }
    if at + RECORD_HEADER_SIZE > size {
        return Err(ParseError::plain("changed-objects manifest has a truncated record header"));
    }
    let kind: u16 = get_le_u16(bytes, at);
    let flags: u16 = get_le_u16(bytes, at + 2);
    let len: usize = get_le_u32(bytes, at + 4) as usize;
    if flags != 0 {
        return Err(
            ParseError::new(
                with_hex("changed-objects record has unsupported flags ", flags as u64),
            ),
        );
    }
    if len < RECORD_HEADER_SIZE {
        return Err(
            ParseError::new(
                ending_in_number("changed-objects record has invalid length ", len as u64),
            ),
        );
    }
    if at > usize::MAX - len {
        return Err(ParseError::plain("changed-objects record length overflow"));
    }
    let end: usize = at + len;
    if end > size {
        return Err(ParseError::plain("changed-objects manifest has a truncated record"));
    }
    if kind == RECORD_OBJECT {
        if len != OBJECT_RECORD_SIZE {
            return Err(
                ParseError::new(
                    ending_in_number("changed-object record has invalid length ", len as u64),
                ),
            );
        }
        return match read_change(bytes, at) {
            Err(error) => Err(error),
            Ok(change) => Ok(ReadRecord::Object(change)),
        };
    }
    if kind == RECORD_REF_ADD || kind == RECORD_REF_DELETE {
        if len < REF_RECORD_SIZE + 1 || len > REF_RECORD_SIZE + 255 {
            return Err(
                ParseError::new(
                    ending_in_number("changed-reference record has invalid length ", len as u64),
                ),
            );
        }
        let reference = Reference {
            ino: get_le_u64(bytes, at + 8),
            parent_ino: get_le_u64(bytes, at + 16),
            name: get_range(bytes, at + REF_RECORD_SIZE, end),
        };
        return match validate_reference(&reference) {
            Err(error) => Err(error),
            Ok(_) => if kind == RECORD_REF_ADD {
                Ok(ReadRecord::RefAdd(reference))
            } else {
                Ok(ReadRecord::RefDelete(reference))
            },
        };
    }
    Err(
        ParseError::new(
            ending_in_number("changed-objects manifest has unknown record type ", kind as u64),
        ),
    )
}

/// Checks the header of the first format.
fn read_header(bytes: &[u8]) -> (checked: Result<(), ParseError>)
    ensures
        match checked {
            Ok(_) => header_fault(bytes@) is None,
            Err(error) => header_fault(bytes@) == Some(error@),
        },
{
    if bytes.len() < HEADER_SIZE {
        return Err(ParseError::plain("changed-objects manifest has a truncated header"));
    }
    let magic = get_range(bytes, 0, 16);
    let expected: [u8; 16] = CHANGED_OBJECTS_MAGIC;
    if !same_bytes(&magic, &expected) {
        return Err(ParseError::plain("changed-objects manifest has invalid magic"));
    }
    let version: u32 = get_le_u32(bytes, 16);
    if version != CHANGED_OBJECTS_VERSION {
        return Err(
            ParseError::new(
                ending_in_number("unsupported changed-objects manifest version ", version as u64),
            ),
        );
    }
    let header_len: usize = get_le_u32(bytes, 20) as usize;
    if header_len != HEADER_SIZE {
        return Err(
            ParseError::new(
                ending_in_number("unsupported changed-objects header length ", header_len as u64),
            ),
        );
    }
    Ok(())
}

/// The objects and references gathered from a stream.
pub(crate) struct Gathering {
    pub objects: BTreeMap<u64, ObjectChange>,
    pub adds: Vec<Reference>,
    pub deletes: Vec<Reference>,
}

impl Gathering {
    pub(crate) closed spec fn model(&self) -> Gathered {
        Gathered {
            objects: self.objects@,
            adds: key_set(self.adds@),
            deletes: key_set(self.deletes@),
        }
    }

    pub(crate) closed spec fn well_formed(&self) -> bool {
        ascending(keys_of(self.adds@)) && ascending(keys_of(self.deletes@))
    }

    fn new() -> (gathering: Self)
        ensures
            gathering.model() == nothing_gathered(),
            gathering.well_formed(),
    {
        let gathering = Gathering { objects: BTreeMap::new(), adds: Vec::new(), deletes: Vec::new() };
        assert(key_set(gathering.adds@) =~= Set::<Key>::empty());
        assert(key_set(gathering.deletes@) =~= Set::<Key>::empty());
        gathering
    }

    fn add(&mut self, record: ReadRecord) -> (added: Result<(), ParseError>)
        requires
            old(self).well_formed(),
        ensures
            final(self).well_formed(),
            match added {
                Ok(_) => gather(old(self).model(), record.model()) == Ok::<Gathered, Seq<char>>(
                    final(self).model(),
                ),
                Err(error) => gather(old(self).model(), record.model()) == Err::<
                    Gathered,
                    Seq<char>,
                >(error@),
            },
    {
        match record {
            ReadRecord::Object(change) => {
                let ino: u64 = change.ino;
                if self.objects.insert(ino, change).is_some() {
                    return Err(
                        ParseError::new(
                            ending_in_number(
                                "changed-objects manifest contains duplicate inode ",
                                ino,
                            ),
                        ),
                    );
                }
            },
            ReadRecord::RefAdd(reference) => {
                if !insert(&mut self.adds, reference) {
                    return Err(
                        ParseError::plain("changed-objects manifest contains a duplicate reference"),
                    );
                }
            },
            ReadRecord::RefDelete(reference) => {
                if !insert(&mut self.deletes, reference) {
                    return Err(
                        ParseError::plain("changed-objects manifest contains a duplicate reference"),
                    );
                }
            },
        }
        Ok(())
    }
}

proof fn lemma_first_orphan_split(objects: Map<u64, ObjectChange>, left: Seq<Key>, right: Seq<Key>)
    ensures
        first_orphan_fault(objects, left + right) == match first_orphan_fault(objects, left) {
            Some(fault) => Some(fault),
            None => first_orphan_fault(objects, right),
        },
    decreases left.len(),
{
    if left.len() == 0 {
        assert(left + right =~= right);
    } else {
        assert((left + right).drop_first() =~= left.drop_first() + right);
        lemma_first_orphan_split(objects, left.drop_first(), right);
    }
}

/// Finds the first reference that belongs to no changed object.
fn check_orphans(objects: &BTreeMap<u64, ObjectChange>, references: &Vec<Reference>) -> (
    checked: Result<(), ParseError>)
    ensures
        match checked {
            Ok(_) => first_orphan_fault(objects@, keys_of(references@)) is None,
            Err(error) => first_orphan_fault(objects@, keys_of(references@)) == Some(error@),
        },
{
    let ghost keys = keys_of(references@);
    let mut at: usize = 0;
    assert(keys.subrange(0, keys.len() as int) =~= keys);
    while at < references.len()
        invariant
            at <= references.len(),
            keys == keys_of(references@),
            first_orphan_fault(objects@, keys) == first_orphan_fault(
                objects@,
                keys.subrange(at as int, keys.len() as int),
            ),
        decreases references.len() - at,
    {
        let ghost rest = keys.subrange(at as int, keys.len() as int);
        assert(rest[0] == references@[at as int].key());
        assert(rest.drop_first() =~= keys.subrange(at + 1, keys.len() as int));
        match objects.get(&references[at].ino) {
            None => {
                return Err(
                    ParseError::plain("changed-reference record has no corresponding object"),
                );
            },
            Some(object) => {
                if object.change_mask & CHANGE_REF == 0 {
                    return Err(ParseError::plain("changed-reference object has no ref change"));
                }
            },
        }
        at += 1;
    }
    Ok(())
}

/// Whether some reference names the inode.
fn any_names_inode(references: &Vec<Reference>, ino: u64) -> (found: bool)
    ensures
        found == names_inode(key_set(references@), ino),
{
    let ghost keys = keys_of(references@);
    let mut at: usize = 0;
    while at < references.len()
        invariant
            at <= references.len(),
            keys == keys_of(references@),
            forall|i: int| 0 <= i < at ==> (#[trigger] keys[i]).first != ino,
        decreases references.len() - at,
    {
        assert(keys[at as int] == references@[at as int].key());
        if references[at].ino == ino {
            assert(keys.to_set().contains(keys[at as int]));
            return true;
        }
        at += 1;
    }
    false
}

/// Finds the least inode that claims a reference change that no record shows.
fn find_unreferenced(gathering: &Gathering) -> (ino: Option<u64>)
    ensures
        ino == first_unreferenced(
            gathering.model(),
            numbers_in_order(gathering.objects@.dom()),
        ),
{
    let inos = sorted_keys(&gathering.objects);
    let ghost all = inos@;
    let mut at: usize = 0;
    assert(all.subrange(0, all.len() as int) =~= all);
    while at < inos.len()
        invariant
            at <= inos.len(),
            all == inos@,
            all == numbers_in_order(gathering.objects@.dom()),
            all.to_set() == gathering.objects@.dom(),
            first_unreferenced(gathering.model(), all) == first_unreferenced(
                gathering.model(),
                all.subrange(at as int, all.len() as int),
            ),
        decreases inos.len() - at,
    {
        let ghost rest = all.subrange(at as int, all.len() as int);
        assert(rest[0] == all[at as int]);
        assert(rest.drop_first() =~= all.subrange(at + 1, all.len() as int));
        let ino: u64 = inos[at];
        assert(all.to_set().contains(all[at as int]));
        match gathering.objects.get(&ino) {
            Some(object) => {
                if object.change_mask & CHANGE_REF != 0 && !any_names_inode(&gathering.adds, ino)
                    && !any_names_inode(&gathering.deletes, ino) {
                    return Some(ino);
                }
            },
            None => {},
        }
        at += 1;
    }
    None
}

/// Strictly ascending keys are as many as their set.
pub(crate) proof fn lemma_ascending_len(keys: Seq<Key>)
    requires
        ascending(keys),
    ensures
        keys.to_set().finite(),
        keys.to_set().len() == keys.len(),
{
    assert forall|i: int, j: int| 0 <= i < j < keys.len() implies keys[i] != keys[j] by {
        law_key_order(keys[i], keys[j], keys[i]);
    }
    assert(keys.no_duplicates());
    keys.unique_seq_to_set();
}

/// Parses a stream of the first format.
pub fn parse_changed_objects(bytes: &[u8]) -> (parsed: Result<ChangedObjectsManifest, ParseError>)
    ensures
        match parsed {
            Ok(manifest) => manifest_of(bytes@) == Ok::<ManifestView, Seq<char>>(manifest@)
                && manifest.well_formed(),
            Err(error) => manifest_of(bytes@) == Err::<ManifestView, Seq<char>>(error@),
        },
{
    match read_header(bytes) {
        Err(error) => {
            return Err(error);
        },
        Ok(_) => {},
    }
    let mut gathering = Gathering::new();
    let mut offset: usize = HEADER_SIZE;
    while offset < bytes.len()
        invariant
            gathering.well_formed(),
            header_fault(bytes@) is None,
            gather_from(bytes@, HEADER_SIZE as int, nothing_gathered()) == gather_from(
                bytes@,
                offset as int,
                gathering.model(),
            ),
        decreases bytes.len() - offset,
    {
        let record = match read_record(bytes, offset) {
            Err(error) => {
                return Err(error);
            },
            Ok(record) => record,
        };
        match gathering.add(record) {
            Err(error) => {
                return Err(error);
            },
            Ok(_) => {},
        }
        offset = offset + get_le_u32(bytes, offset + 4) as usize;
    }
    let ghost gathered = gathering.model();
    proof {
        law_in_order(keys_of(gathering.adds@));
        law_in_order(keys_of(gathering.deletes@));
        lemma_first_orphan_split(
            gathering.objects@,
            keys_of(gathering.adds@),
            keys_of(gathering.deletes@),
        );
        lemma_ascending_len(keys_of(gathering.adds@));
        lemma_ascending_len(keys_of(gathering.deletes@));
    }
    match check_orphans(&gathering.objects, &gathering.adds) {
        Err(error) => {
            return Err(error);
        },
        Ok(_) => {},
    }
    match check_orphans(&gathering.objects, &gathering.deletes) {
        Err(error) => {
            return Err(error);
        },
        Ok(_) => {},
    }
    match find_unreferenced(&gathering) {
        Some(ino) => {
            return Err(
                ParseError::new(
                    with_number("changed-reference object ", ino, " has no ref records"),
                ),
            );
        },
        None => {},
    }
    let ref_adds = difference(&gathering.adds, &gathering.deletes);
    let ref_deletes = difference(&gathering.deletes, &gathering.adds);
    Ok(
        ChangedObjectsManifest {
            raw_ref_adds: gathering.adds.len(),
            raw_ref_deletes: gathering.deletes.len(),
            objects: gathering.objects,
            ref_adds,
            ref_deletes,
        },
    )
}

/// The bytes that an object contributes to the canonical hash.
pub open spec fn object_preimage(change: ObjectChange) -> Seq<u8> {
    seq![111u8] + be_bytes(change.ino) + be_bytes(
        match change.old_generation {
            Some(generation) => generation,
            None => 0,
        },
    ) + be_bytes(
        match change.new_generation {
            Some(generation) => generation,
            None => 0,
        },
    ) + be_bytes(change.change_mask)
}

/// The bytes that the objects with the given inode numbers contribute.
pub open spec fn objects_preimage(objects: Map<u64, ObjectChange>, inos: Seq<u64>) -> Seq<u8>
    decreases inos.len(),
{
    if inos.len() == 0 {
        Seq::empty()
    } else {
        objects_preimage(objects, inos.drop_last()) + object_preimage(objects[inos.last()])
    }
}

/// The bytes that a reference contributes, behind `tag`.
pub open spec fn reference_preimage(tag: u8, reference: Key) -> Seq<u8> {
    seq![tag] + be_bytes(reference.first) + be_bytes(reference.second) + be_bytes(
        reference.name.len() as u64,
    ) + reference.name
}

/// The bytes that references contribute, each behind `tag`.
pub open spec fn references_preimage(tag: u8, references: Seq<Key>) -> Seq<u8>
    decreases references.len(),
{
    if references.len() == 0 {
        Seq::empty()
    } else {
        references_preimage(tag, references.drop_last()) + reference_preimage(
            tag,
            references.last(),
        )
    }
}

/// `btrfs-awacs-changed-objects-v1`, closed by a zero.
pub const HASH_DOMAIN: [u8; 31] = [
    98, 116, 114, 102, 115, 45, 97, 119, 97, 99, 115, 45, 99, 104, 97, 110, 103, 101, 100, 45, 111,
    98, 106, 101, 99, 116, 115, 45, 118, 49, 0,
];

/// The bytes that the canonical hash of a manifest digests: the objects by
/// inode number, then the added and the deleted references in order, then the
/// raw counts.
pub open spec fn canonical_preimage(manifest: ManifestView) -> Seq<u8> {
    HASH_DOMAIN@ + objects_preimage(manifest.objects, numbers_in_order(manifest.objects.dom()))
        + references_preimage(97, in_order(manifest.ref_adds)) + references_preimage(
        100,
        in_order(manifest.ref_deletes),
    ) + be_bytes(manifest.raw_ref_adds as u64) + be_bytes(manifest.raw_ref_deletes as u64)
}

fn push_objects(out: &mut Vec<u8>, objects: &BTreeMap<u64, ObjectChange>)
    ensures
        final(out)@ == old(out)@ + objects_preimage(objects@, numbers_in_order(objects@.dom())),
{
    let inos = sorted_keys(objects);
    let ghost all = inos@;
    let mut at: usize = 0;
    assert(out@ =~= old(out)@ + objects_preimage(objects@, all.subrange(0, 0)));
    while at < inos.len()
        invariant
            at <= inos.len(),
            all == inos@,
            all.to_set() == objects@.dom(),
            out@ == old(out)@ + objects_preimage(objects@, all.subrange(0, at as int)),
        decreases inos.len() - at,
    {
        let ghost next = all.subrange(0, at + 1);
        assert(next.drop_last() =~= all.subrange(0, at as int));
        assert(all.to_set().contains(all[at as int]));
        let ghost before = out@;
        match objects.get(&inos[at]) {
            Some(change) => {
                out.push(111);
                push_be_u64(out, change.ino);
                push_be_u64(
                    out,
                    match change.old_generation {
                        Some(generation) => generation,
                        None => 0,
                    },
                );
                push_be_u64(
                    out,
                    match change.new_generation {
                        Some(generation) => generation,
                        None => 0,
                    },
                );
                push_be_u64(out, change.change_mask);
                assert(out@ =~= before + object_preimage(*change));
            },
            None => {},
        }
        assert(out@ =~= old(out)@ + objects_preimage(objects@, next));
        at += 1;
    }
    assert(all.subrange(0, at as int) =~= all);
}

fn push_references(out: &mut Vec<u8>, tag: u8, references: &Vec<Reference>)
    ensures
        final(out)@ == old(out)@ + references_preimage(tag, keys_of(references@)),
{
    let ghost keys = keys_of(references@);
    let mut at: usize = 0;
    assert(out@ =~= old(out)@ + references_preimage(tag, keys.subrange(0, 0)));
    while at < references.len()
        invariant
            at <= references.len(),
            keys == keys_of(references@),
            out@ == old(out)@ + references_preimage(tag, keys.subrange(0, at as int)),
        decreases references.len() - at,
    {
        let ghost next = keys.subrange(0, at + 1);
        assert(next.drop_last() =~= keys.subrange(0, at as int));
        let ghost before = out@;
        let reference = &references[at];
        out.push(tag);
        push_be_u64(out, reference.ino);
        push_be_u64(out, reference.parent_ino);
        push_be_u64(out, reference.name.len() as u64);
        push_bytes(out, &reference.name);
        assert(out@ =~= before + reference_preimage(tag, keys[at as int]));
        assert(out@ =~= old(out)@ + references_preimage(tag, next));
        at += 1;
    }
    assert(keys.subrange(0, at as int) =~= keys);
}

impl ChangedObjectsManifest {
    /// The digest that identifies the manifest independently of how its stream
    /// was laid out.
    pub fn canonical_hash(&self) -> (hash: [u8; 32])
        requires
            self.well_formed(),
        ensures
            hash@ == sha256(canonical_preimage(self@)),
    {
        let mut preimage: Vec<u8> = Vec::new();
        let domain: [u8; 31] = HASH_DOMAIN;
        push_bytes(&mut preimage, &domain);
        push_objects(&mut preimage, &self.objects);
        push_references(&mut preimage, 97, &self.ref_adds);
        push_references(&mut preimage, 100, &self.ref_deletes);
        push_be_u64(&mut preimage, self.raw_ref_adds as u64);
        push_be_u64(&mut preimage, self.raw_ref_deletes as u64);
        proof {
            law_in_order(keys_of(self.ref_adds@));
            law_in_order(keys_of(self.ref_deletes@));
            assert(preimage@ =~= canonical_preimage(self@));
        }
        sha256_digest(&preimage)
    }
}

/// What a parsed manifest adds, it does not delete: entries on both sides
/// cancel, and the raw counts tell how many there were.
pub proof fn law_references_are_cancelled(bytes: Seq<u8>)
    ensures
        manifest_of(bytes) matches Ok(manifest) ==> manifest.ref_adds.disjoint(
            manifest.ref_deletes,
        ),
{
}

} // verus!
