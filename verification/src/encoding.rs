//! How the kernel writes changed-object streams, and that whatever it writes is read
//! back.

use crate::bytes::{le_u16, le_u32, le_u64};
use crate::crc32c::crc32c_of;
use crate::manifest::{
    conclude, first_orphan_fault, first_unreferenced, gather, gather_from, header_fault,
    manifest_of, names_inode, nothing_gathered, orphan_fault, record_at, record_end, unreferenced,
    Gathered, ManifestView, ObjectChange, Record, CHANGED_OBJECTS_MAGIC, CHANGED_OBJECTS_V2_MAGIC,
};
use crate::manifest_v2::{
    all_belong, all_survive, array_16, belongs, collect, collect_from, conclude_stream, frame_fault,
    nothing_collected, stream_header, stream_header_fault, stream_of, stream_record_at,
    ChangedObjectsV2Header, survives, zero_id, Collected, StreamRecord, StreamView,
    TargetObjectMetadata,
};
use crate::inodes::{lemma_numbers_in_order, numbers_in_order};
use crate::ordered::{in_order, lemma_in_order, Key};
use vstd::prelude::*;

verus! {

/// The two bytes of a number, least significant first.
pub open spec fn two_bytes(value: u16) -> Seq<u8> {
    seq![(value & 0xff) as u8, ((value >> 8) & 0xff) as u8]
}

/// The four bytes of a number, least significant first.
pub open spec fn four_bytes(value: u32) -> Seq<u8> {
    seq![
        (value & 0xff) as u8,
        ((value >> 8) & 0xff) as u8,
        ((value >> 16) & 0xff) as u8,
        ((value >> 24) & 0xff) as u8,
    ]
}

/// The eight bytes of a number, least significant first.
pub open spec fn eight_bytes(value: u64) -> Seq<u8> {
    seq![
        (value & 0xff) as u8,
        ((value >> 8) & 0xff) as u8,
        ((value >> 16) & 0xff) as u8,
        ((value >> 24) & 0xff) as u8,
        ((value >> 32) & 0xff) as u8,
        ((value >> 40) & 0xff) as u8,
        ((value >> 48) & 0xff) as u8,
        ((value >> 56) & 0xff) as u8,
    ]
}

/// The bytes of numbers, one behind the other.
pub open spec fn words(values: Seq<u64>) -> Seq<u8> {
    Seq::new(8 * values.len(), |i: int| eight_bytes(values[i / 8])[i % 8])
}

/// Something that the kernel tells of a change.
pub enum Told {
    /// An inode changed. The generations are zero where there is none, and
    /// `target` is what the inode is now, where the kernel tells it.
    Object {
        ino: u64,
        old: u64,
        new: u64,
        mask: u64,
        target: Option<TargetObjectMetadata>,
    },
    /// A directory entry came: the inode, its parent and the name.
    Comes(Key),
    /// A directory entry went.
    Goes(Key),
    /// All attributes of the inode are told anew.
    Resets(u64),
    /// The inode has the attribute.
    Attribute { ino: u64, name: Seq<u8>, value: Seq<u8> },
    /// An entry that leads into another subvolume came: the parent, the root and
    /// the name.
    BoundaryComes(Key),
    /// An entry that leads into another subvolume went.
    BoundaryGoes(Key),
    /// Something that has no meaning yet. It may be passed over where its highest
    /// flag alone is set.
    Extension { kind: u16, flags: u16, body: Seq<u8> },
    /// Something that has a meaning, with flags that have none.
    Flagged { kind: u16, flags: u16, body: Seq<u8> },
}

/// A record: its kind, its flags, its length, and what it holds.
pub open spec fn framed(kind: u16, flags: u16, body: Seq<u8>) -> Seq<u8> {
    two_bytes(kind) + two_bytes(flags) + four_bytes((8 + body.len()) as u32) + body
}

/// What a record of an entry holds.
pub open spec fn entry_body(key: Key) -> Seq<u8> {
    words(seq![key.first, key.second]) + key.name
}

/// The record of the second format that tells it.
pub open spec fn second_record(told: Told) -> Seq<u8> {
    match told {
        Told::Object { ino, old, new, mask, target } => match target {
            Some(m) => framed(
                1,
                1,
                words(
                    seq![
                        ino,
                        old,
                        new,
                        mask,
                        m.change_sequence,
                        m.transid,
                        m.mode,
                        m.nlink,
                        m.uid,
                        m.gid,
                        m.rdev,
                    ],
                ),
            ),
            None => framed(1, 0, words(seq![ino, old, new, mask, 0, 0, 0, 0, 0, 0, 0])),
        },
        Told::Comes(key) => framed(2, 0, entry_body(key)),
        Told::Goes(key) => framed(3, 0, entry_body(key)),
        Told::Resets(ino) => framed(4, 0, words(seq![ino])),
        Told::Attribute { ino, name, value } => framed(
            5,
            0,
            words(seq![ino]) + (four_bytes(name.len() as u32) + four_bytes(value.len() as u32)) + (
            name + value),
        ),
        Told::BoundaryComes(key) => framed(6, 0, entry_body(key)),
        Told::BoundaryGoes(key) => framed(7, 0, entry_body(key)),
        Told::Extension { kind, flags, body } => framed(kind, flags, body),
        Told::Flagged { kind, flags, body } => framed(kind, flags, body),
    }
}

/// Whether the record has room for what it tells.
pub open spec fn tellable(told: Told) -> bool {
    match told {
        Told::Object { new, target, .. } => target matches Some(m) ==> m.generation == new,
        Told::Comes(key) => key.name.len() <= 0x1000_0000,
        Told::Goes(key) => key.name.len() <= 0x1000_0000,
        Told::Resets(_) => true,
        Told::Attribute { name, value, .. } => name.len() <= 0x1000_0000 && value.len()
            <= 0x1000_0000,
        Told::BoundaryComes(key) => key.name.len() <= 0x1000_0000,
        Told::BoundaryGoes(key) => key.name.len() <= 0x1000_0000,
        Told::Extension { kind, body, .. } => (kind == 0 || 8 <= kind < 0xffff) && body.len()
            <= 0x1000_0000,
        Told::Flagged { kind, flags, body } => (kind == 1 && flags > 1 || 2 <= kind <= 7 && flags
            != 0) && body.len() <= 0x1000_0000,
    }
}

/// Whether the name can be that of a directory entry.
pub open spec fn is_name(name: Seq<u8>) -> bool {
    &&& 1 <= name.len() <= 255
    &&& forall|i: int| 0 <= i < name.len() ==> #[trigger] name[i] != 0 && name[i] != 47
}

/// Whether an inode can have changed so.
pub open spec fn object_makes_sense(ino: u64, old: u64, new: u64, mask: u64) -> bool {
    let created = mask & 32 != 0;
    let deleted = mask & 64 != 0;
    let inode = mask & 1 != 0;
    &&& ino != 0
    &&& 0 < mask < 256
    &&& (created || deleted) ==> inode
    &&& created && !deleted ==> old == 0 && new != 0
    &&& deleted && !created ==> old != 0 && new == 0
    &&& created && deleted ==> old != 0 && new != 0 && old != new
    &&& !created && !deleted ==> (old == 0 <==> new == 0) && (inode ==> old != 0)
}

/// Whether what is told makes sense by itself.
pub open spec fn makes_sense(told: Told) -> bool {
    match told {
        Told::Object { ino, old, new, mask, target } => {
            &&& object_makes_sense(ino, old, new, mask)
            &&& target matches Some(m) ==> m.generation != 0 && m.change_sequence != 0 && m.transid
                != 0 && m.nlink != 0
        },
        Told::Comes(key) => key.first != 0 && key.second != 0 && is_name(key.name),
        Told::Goes(key) => key.first != 0 && key.second != 0 && is_name(key.name),
        Told::Resets(ino) => ino != 0,
        Told::Attribute { name, .. } => 1 <= name.len() <= 255,
        Told::BoundaryComes(key) => key.first != 0 && key.second != 0 && is_name(key.name),
        Told::BoundaryGoes(key) => key.first != 0 && key.second != 0 && is_name(key.name),
        Told::Extension { flags, .. } => flags == 0x8000,
        Told::Flagged { .. } => false,
    }
}

/// A generation as it is kept: none where the kernel tells zero.
pub open spec fn kept_generation(told: u64) -> Option<u64> {
    if told == 0 {
        None
    } else {
        Some(told)
    }
}

proof fn lemma_two(bytes: Seq<u8>, at: int, value: u16)
    requires
        0 <= at,
        at + 2 <= bytes.len(),
        bytes.subrange(at, at + 2) == two_bytes(value),
    ensures
        le_u16(bytes, at) == value,
{
    let word = bytes.subrange(at, at + 2);
    assert(word[0] == bytes[at] && word[1] == bytes[at + 1]);
    assert((((value & 0xff) as u8) as u16) | (((((value >> 8) & 0xff) as u8) as u16) << 8)
        == value) by (bit_vector);
}

proof fn lemma_four(bytes: Seq<u8>, at: int, value: u32)
    requires
        0 <= at,
        at + 4 <= bytes.len(),
        bytes.subrange(at, at + 4) == four_bytes(value),
    ensures
        le_u32(bytes, at) == value,
{
    let word = bytes.subrange(at, at + 4);
    assert(word[0] == bytes[at] && word[1] == bytes[at + 1] && word[2] == bytes[at + 2] && word[3]
        == bytes[at + 3]);
    assert((((value & 0xff) as u8) as u32) | (((((value >> 8) & 0xff) as u8) as u32) << 8)
        | (((((value >> 16) & 0xff) as u8) as u32) << 16)
        | (((((value >> 24) & 0xff) as u8) as u32) << 24) == value) by (bit_vector);
}

proof fn lemma_eight(bytes: Seq<u8>, at: int, value: u64)
    requires
        0 <= at,
        at + 8 <= bytes.len(),
        bytes.subrange(at, at + 8) == eight_bytes(value),
    ensures
        le_u64(bytes, at) == value,
{
    let word = bytes.subrange(at, at + 8);
    assert(word[0] == bytes[at] && word[1] == bytes[at + 1] && word[2] == bytes[at + 2] && word[3]
        == bytes[at + 3] && word[4] == bytes[at + 4] && word[5] == bytes[at + 5] && word[6]
        == bytes[at + 6] && word[7] == bytes[at + 7]);
    assert((((value & 0xff) as u8) as u64) | (((((value >> 8) & 0xff) as u8) as u64) << 8)
        | (((((value >> 16) & 0xff) as u8) as u64) << 16)
        | (((((value >> 24) & 0xff) as u8) as u64) << 24)
        | (((((value >> 32) & 0xff) as u8) as u64) << 32)
        | (((((value >> 40) & 0xff) as u8) as u64) << 40)
        | (((((value >> 48) & 0xff) as u8) as u64) << 48)
        | (((((value >> 56) & 0xff) as u8) as u64) << 56) == value) by (bit_vector);
}

/// Whether the bytes hold the piece at `at`.
pub open spec fn stands_at(bytes: Seq<u8>, at: int, piece: Seq<u8>) -> bool {
    0 <= at && at + piece.len() <= bytes.len() && bytes.subrange(at, at + piece.len()) == piece
}

proof fn lemma_parts(bytes: Seq<u8>, at: int, left: Seq<u8>, right: Seq<u8>)
    requires
        stands_at(bytes, at, left + right),
    ensures
        stands_at(bytes, at, left),
        stands_at(bytes, at + left.len(), right),
{
    let all = bytes.subrange(at, at + (left + right).len());
    assert(bytes.subrange(at, at + left.len()) =~= all.subrange(0, left.len() as int));
    assert((left + right).subrange(0, left.len() as int) =~= left);
    assert(bytes.subrange(at + left.len(), at + left.len() + right.len()) =~= all.subrange(
        left.len() as int,
        all.len() as int,
    ));
    assert((left + right).subrange(left.len() as int, (left + right).len() as int) =~= right);
}

proof fn lemma_words(bytes: Seq<u8>, at: int, values: Seq<u64>, k: int)
    requires
        stands_at(bytes, at, words(values)),
        0 <= k < values.len(),
    ensures
        le_u64(bytes, at + 8 * k) == values[k],
{
    let start = at + 8 * k;
    let all = bytes.subrange(at, at + words(values).len());
    assert forall|j: int| 0 <= j < 8 implies #[trigger] bytes.subrange(start, start + 8)[j]
        == eight_bytes(values[k])[j] by {
        assert(bytes[start + j] == all[8 * k + j]);
        assert((8 * k + j) / 8 == k && (8 * k + j) % 8 == j);
    }
    assert(bytes.subrange(start, start + 8) =~= eight_bytes(values[k]));
    lemma_eight(bytes, start, values[k]);
}

proof fn lemma_framed(bytes: Seq<u8>, at: int, kind: u16, flags: u16, body: Seq<u8>)
    requires
        stands_at(bytes, at, framed(kind, flags, body)),
        body.len() <= 0x8000_0000,
    ensures
        framed(kind, flags, body).len() == 8 + body.len(),
        le_u16(bytes, at) == kind,
        le_u16(bytes, at + 2) == flags,
        le_u32(bytes, at + 4) == 8 + body.len(),
        stands_at(bytes, at + 8, body),
{
    let length = (8 + body.len()) as u32;
    lemma_parts(bytes, at, two_bytes(kind) + two_bytes(flags) + four_bytes(length), body);
    lemma_parts(bytes, at, two_bytes(kind) + two_bytes(flags), four_bytes(length));
    lemma_parts(bytes, at, two_bytes(kind), two_bytes(flags));
    lemma_two(bytes, at, kind);
    lemma_two(bytes, at + 2, flags);
    lemma_four(bytes, at + 4, length);
}

proof fn lemma_entry(bytes: Seq<u8>, at: int, key: Key)
    requires
        stands_at(bytes, at, entry_body(key)),
    ensures
        le_u64(bytes, at) == key.first,
        le_u64(bytes, at + 8) == key.second,
        bytes.subrange(at + 16, at + 16 + key.name.len()) == key.name,
        entry_body(key).len() == 16 + key.name.len(),
{
    let values = seq![key.first, key.second];
    lemma_parts(bytes, at, words(values), key.name);
    lemma_words(bytes, at, values, 0);
    lemma_words(bytes, at, values, 1);
}

proof fn lemma_mask(mask: u64)
    ensures
        (mask & !255u64 == 0) == (mask < 256),
{
    assert((mask & !255u64 == 0) == (mask < 256)) by (bit_vector);
}

proof fn lemma_name_rule(name: Seq<u8>)
    ensures
        (name.len() > 0 && !name.contains(47u8) && !name.contains(0u8) && name.len() <= 255)
            == is_name(name),
{
    if is_name(name) {
        assert forall|byte: u8| byte == 47 || byte == 0 implies !name.contains(byte) by {
            if name.contains(byte) {
                let i = choose|i: int| 0 <= i < name.len() && name[i] == byte;
                assert(name[i] == byte);
            }
        }
    } else if 0 < name.len() <= 255 {
        let i = choose|i: int|
            0 <= i < name.len() && !(#[trigger] name[i] != 0 && name[i] != 47);
        assert(name.contains(name[i]));
    }
}

spec fn read_as(told: Told) -> StreamRecord {
    match told {
        Told::Object { ino, old, new, mask, target } => StreamRecord::Object {
            change: ObjectChange {
                ino,
                old_generation: kept_generation(old),
                new_generation: kept_generation(new),
                change_mask: mask,
            },
            target,
        },
        Told::Comes(key) => StreamRecord::RefAdd(key),
        Told::Goes(key) => StreamRecord::RefDelete(key),
        Told::Resets(ino) => StreamRecord::XattrReset(ino),
        Told::Attribute { ino, name, value } => StreamRecord::Xattr { ino, name, value },
        Told::BoundaryComes(key) => StreamRecord::BoundaryAdd(key),
        Told::BoundaryGoes(key) => StreamRecord::BoundaryDelete(key),
        Told::Extension { .. } => StreamRecord::Extension,
        Told::Flagged { .. } => StreamRecord::Extension,
    }
}

/// Whether a record is refused for what it holds alone.
spec fn readable(told: Told) -> bool {
    match told {
        Told::Object { ino, old, new, mask, .. } => object_makes_sense(ino, old, new, mask),
        Told::Resets(_) => true,
        _ => makes_sense(told),
    }
}

proof fn lemma_flag()
    ensures
        1u16 & !1u16 == 0,
        0u16 & !1u16 == 0,
        1u16 & 1u16 != 0,
        0u16 & 1u16 == 0,
{
    assert(1u16 & !1u16 == 0 && 0u16 & !1u16 == 0 && 1u16 & 1u16 != 0 && 0u16 & 1u16 == 0)
        by (bit_vector);
}

proof fn lemma_object_record(bytes: Seq<u8>, at: int, told: Told)
    requires
        told is Object,
        tellable(told),
        stands_at(bytes, at, second_record(told)),
        bytes.len() <= usize::MAX,
    ensures
        le_u32(bytes, at + 4) == second_record(told).len(),
        second_record(told).len() >= 8,
        le_u16(bytes, at) != 0xffff,
        frame_fault(bytes, at) is None,
        match stream_record_at(bytes, at) {
            Ok(record) => readable(told) && record == read_as(told),
            Err(_) => !readable(told),
        },
{
    lemma_flag();
    if let Told::Object { ino, old, new, mask, target } = told {
        let (values, flags) = match target {
            Some(m) => (
                seq![
                    ino,
                    old,
                    new,
                    mask,
                    m.change_sequence,
                    m.transid,
                    m.mode,
                    m.nlink,
                    m.uid,
                    m.gid,
                    m.rdev,
                ],
                1u16,
            ),
            None => (seq![ino, old, new, mask, 0, 0, 0, 0, 0, 0, 0], 0u16),
        };
        lemma_framed(bytes, at, 1, flags, words(values));
        lemma_words(bytes, at + 8, values, 0);
        lemma_words(bytes, at + 8, values, 1);
        lemma_words(bytes, at + 8, values, 2);
        lemma_words(bytes, at + 8, values, 3);
        lemma_words(bytes, at + 8, values, 4);
        lemma_words(bytes, at + 8, values, 5);
        lemma_words(bytes, at + 8, values, 6);
        lemma_words(bytes, at + 8, values, 7);
        lemma_words(bytes, at + 8, values, 8);
        lemma_words(bytes, at + 8, values, 9);
        lemma_words(bytes, at + 8, values, 10);
        lemma_mask(mask);
    }
}

proof fn lemma_second_record(bytes: Seq<u8>, at: int, told: Told)
    requires
        tellable(told),
        stands_at(bytes, at, second_record(told)),
        bytes.len() <= usize::MAX,
    ensures
        le_u32(bytes, at + 4) == second_record(told).len(),
        second_record(told).len() >= 8,
        le_u16(bytes, at) != 0xffff,
        frame_fault(bytes, at) is None,
        match stream_record_at(bytes, at) {
            Ok(record) => readable(told) && record == read_as(told),
            Err(_) => !readable(told),
        },
{
    match told {
        Told::Object { .. } => {
            lemma_object_record(bytes, at, told);
        },
        Told::Comes(key) => {
            lemma_framed(bytes, at, 2, 0, entry_body(key));
            lemma_entry(bytes, at + 8, key);
            lemma_name_rule(key.name);
        },
        Told::Goes(key) => {
            lemma_framed(bytes, at, 3, 0, entry_body(key));
            lemma_entry(bytes, at + 8, key);
            lemma_name_rule(key.name);
        },
        Told::Resets(ino) => {
            lemma_framed(bytes, at, 4, 0, words(seq![ino]));
            lemma_words(bytes, at + 8, seq![ino], 0);
        },
        Told::Attribute { ino, name, value } => {
            let lengths = four_bytes(name.len() as u32) + four_bytes(value.len() as u32);
            let front = words(seq![ino]) + lengths;
            lemma_framed(bytes, at, 5, 0, front + (name + value));
            lemma_parts(bytes, at + 8, front, name + value);
            lemma_parts(bytes, at + 8, words(seq![ino]), lengths);
            lemma_parts(
                bytes,
                at + 16,
                four_bytes(name.len() as u32),
                four_bytes(value.len() as u32),
            );
            lemma_parts(bytes, at + 24, name, value);
            lemma_words(bytes, at + 8, seq![ino], 0);
            lemma_four(bytes, at + 16, name.len() as u32);
            lemma_four(bytes, at + 20, value.len() as u32);
        },
        Told::BoundaryComes(key) => {
            lemma_framed(bytes, at, 6, 0, entry_body(key));
            lemma_entry(bytes, at + 8, key);
            lemma_name_rule(key.name);
        },
        Told::BoundaryGoes(key) => {
            lemma_framed(bytes, at, 7, 0, entry_body(key));
            lemma_entry(bytes, at + 8, key);
            lemma_name_rule(key.name);
        },
        Told::Extension { kind, flags, body } => {
            lemma_framed(bytes, at, kind, flags, body);
        },
        Told::Flagged { kind, flags, body } => {
            lemma_framed(bytes, at, kind, flags, body);
            assert((flags & !1u16 != 0) == (flags > 1)) by (bit_vector);
        },
    }
}

/// Pieces, one behind the other.
pub open spec fn in_a_row(pieces: Seq<Seq<u8>>) -> Seq<u8>
    decreases pieces.len(),
{
    if pieces.len() == 0 {
        Seq::empty()
    } else {
        in_a_row(pieces.drop_last()) + pieces.last()
    }
}

/// The records of the second format.
pub open spec fn second_records(tolds: Seq<Told>) -> Seq<Seq<u8>> {
    tolds.map_values(|told: Told| second_record(told))
}

/// The header of the second format: its magic number, its version, its length, what
/// the kernel promises, and both endpoints.
pub open spec fn second_header(header: ChangedObjectsV2Header) -> Seq<u8> {
    seq![98u8, 116, 114, 102, 115, 45, 111, 98, 106, 101, 99, 116, 115, 45, 118, 50] + (four_bytes(
        2,
    ) + four_bytes(112)) + words(seq![promised(header)]) + header.fs_uuid@ + header.source_uuid@
        + header.target_uuid@ + words(
        seq![
            header.source_ctransid,
            header.target_ctransid,
            header.source_root_id,
            header.target_root_id,
        ],
    )
}

/// The record that closes a stream: the number of records and of bytes before it,
/// and their check value.
pub open spec fn closing_record(front: Seq<u8>, records: nat) -> Seq<u8> {
    framed(
        0xffff,
        0,
        words(seq![records as u64, front.len() as u64]) + (four_bytes(crc32c_of(front))
            + four_bytes(0)),
    )
}

/// A stream of the second format.
pub open spec fn second_stream(header: ChangedObjectsV2Header, tolds: Seq<Told>) -> Seq<u8> {
    let front = second_header(header) + in_a_row(second_records(tolds));
    front + closing_record(front, tolds.len())
}

/// Whether an identifier is there.
pub open spec fn is_there(id: [u8; 16]) -> bool {
    exists|i: int| 0 <= i < 16 && #[trigger] id@[i] != 0
}

/// Whether both endpoints of a stream are identified.
pub open spec fn header_makes_sense(header: ChangedObjectsV2Header) -> bool {
    &&& is_there(header.fs_uuid)
    &&& is_there(header.source_uuid)
    &&& is_there(header.target_uuid)
    &&& header.source_ctransid != 0
    &&& header.target_ctransid != 0
    &&& header.source_root_id != 0
    &&& header.target_root_id != 0
}

/// Whether one of the first `n` tells it.
pub open spec fn tells(tolds: Seq<Told>, n: int, told: Told) -> bool {
    exists|i: int| 0 <= i < n && #[trigger] tolds[i] == told
}

/// The inode that changed.
pub open spec fn changed_ino(told: Told) -> Option<u64> {
    match told {
        Told::Object { ino, .. } => Some(ino),
        _ => None,
    }
}

/// How the inode changed.
pub open spec fn change_of(told: Told) -> Option<ObjectChange> {
    match told {
        Told::Object { ino, old, new, mask, .. } => Some(
            ObjectChange {
                ino,
                old_generation: kept_generation(old),
                new_generation: kept_generation(new),
                change_mask: mask,
            },
        ),
        _ => None,
    }
}

/// What the inode is now.
pub open spec fn target_of(told: Told) -> Option<TargetObjectMetadata> {
    match told {
        Told::Object { target, .. } => target,
        _ => None,
    }
}

/// The inode and the name of an attribute.
pub open spec fn attribute_of(told: Told) -> Option<(u64, Seq<u8>)> {
    match told {
        Told::Attribute { ino, name, .. } => Some((ino, name)),
        _ => None,
    }
}

/// The value of an attribute.
pub open spec fn value_of(told: Told) -> Option<Seq<u8>> {
    match told {
        Told::Attribute { value, .. } => Some(value),
        _ => None,
    }
}

/// Whether one of the first `n` tells of a change of the inode.
pub open spec fn tells_change(tolds: Seq<Told>, n: int, ino: u64) -> bool {
    exists|i: int| 0 <= i < n && changed_ino(#[trigger] tolds[i]) == Some(ino)
}

/// Whether one of the first `n` tells what the inode is now.
pub open spec fn tells_target(tolds: Seq<Told>, n: int, ino: u64) -> bool {
    exists|i: int|
        0 <= i < n && changed_ino(#[trigger] tolds[i]) == Some(ino) && target_of(tolds[i]) is Some
}

/// Whether one of the first `n` tells the attribute.
pub open spec fn tells_attribute(tolds: Seq<Told>, n: int, ino: u64, name: Seq<u8>) -> bool {
    exists|i: int| 0 <= i < n && attribute_of(#[trigger] tolds[i]) == Some((ino, name))
}

/// How many of the first `n` tell of an entry that came.
pub open spec fn comings(tolds: Seq<Told>, n: int) -> nat
    decreases n,
{
    if n <= 0 {
        0
    } else {
        comings(tolds, n - 1) + if tolds[n - 1] is Comes {
            1nat
        } else {
            0
        }
    }
}

/// How many of the first `n` tell of an entry that went.
pub open spec fn goings(tolds: Seq<Told>, n: int) -> nat
    decreases n,
{
    if n <= 0 {
        0
    } else {
        goings(tolds, n - 1) + if tolds[n - 1] is Goes {
            1nat
        } else {
            0
        }
    }
}

/// Whether what is told at `n` repeats nothing that was told before, and an
/// attribute comes behind the reset of its inode.
pub open spec fn repeats_nothing(tolds: Seq<Told>, n: int) -> bool {
    match tolds[n] {
        Told::Object { ino, .. } => !tells_change(tolds, n, ino),
        Told::Attribute { ino, name, .. } => tells(tolds, n, Told::Resets(ino)) && !tells_attribute(
            tolds,
            n,
            ino,
            name,
        ),
        Told::Extension { .. } => true,
        Told::Flagged { .. } => true,
        _ => !tells(tolds, n, tolds[n]),
    }
}

/// Whether an inode is told to have changed its entries.
pub open spec fn tells_entries(tolds: Seq<Told>, ino: u64) -> bool {
    exists|i: int|
        0 <= i < tolds.len() && changed_ino(#[trigger] tolds[i]) == Some(ino) && change_of(
            tolds[i],
        )->0.change_mask & 2 != 0
}

/// Whether an inode is told to live on, with what it is now.
pub open spec fn tells_survivor(tolds: Seq<Told>, ino: u64) -> bool {
    exists|i: int|
        0 <= i < tolds.len() && changed_ino(#[trigger] tolds[i]) == Some(ino) && change_of(
            tolds[i],
        )->0.change_mask & 64 == 0 && target_of(tolds[i]) is Some
}

/// Whether it belongs to what is told besides: an entry to an inode that changed its
/// entries, and new attributes to an inode that lives on.
pub open spec fn belongs_there(tolds: Seq<Told>, told: Told) -> bool {
    match told {
        Told::Comes(key) => tells_entries(tolds, key.first),
        Told::Goes(key) => tells_entries(tolds, key.first),
        Told::Resets(ino) => tells_survivor(tolds, ino),
        _ => true,
    }
}

/// Whether what is told makes sense together.
pub open spec fn second_makes_sense(tolds: Seq<Told>) -> bool {
    forall|i: int|
        0 <= i < tolds.len() ==> makes_sense(#[trigger] tolds[i]) && repeats_nothing(tolds, i)
            && belongs_there(tolds, tolds[i])
}

/// Whether what was collected is exactly what the first `n` tell.
spec fn collected_exactly(collected: Collected, tolds: Seq<Told>, n: int) -> bool {
    &&& collected.records == n
    &&& forall|ino: u64| #[trigger]
        collected.objects.contains_key(ino) == tells_change(tolds, n, ino)
    &&& forall|i: int|
        0 <= i < n && changed_ino(#[trigger] tolds[i]) is Some ==> collected.objects[changed_ino(
            tolds[i],
        )->0] == change_of(tolds[i])->0
    &&& forall|ino: u64| #[trigger]
        collected.targets.contains_key(ino) == tells_target(tolds, n, ino)
    &&& forall|i: int|
        0 <= i < n && target_of(#[trigger] tolds[i]) is Some ==> collected.targets[changed_ino(
            tolds[i],
        )->0] == target_of(tolds[i])->0
    &&& forall|key: Key| #[trigger]
        collected.adds.contains(key) == tells(tolds, n, Told::Comes(key))
    &&& forall|key: Key| #[trigger]
        collected.deletes.contains(key) == tells(tolds, n, Told::Goes(key))
    &&& collected.adds.finite()
    &&& collected.deletes.finite()
    &&& collected.adds.len() == comings(tolds, n)
    &&& collected.deletes.len() == goings(tolds, n)
    &&& forall|ino: u64| #[trigger]
        collected.xattrs.contains_key(ino) == tells(tolds, n, Told::Resets(ino))
    &&& forall|ino: u64, name: Seq<u8>|
        collected.xattrs.contains_key(ino) ==> #[trigger] collected.xattrs[ino].contains_key(name)
            == tells_attribute(tolds, n, ino, name)
    &&& forall|i: int|
        0 <= i < n && attribute_of(#[trigger] tolds[i]) is Some ==> {
            let (ino, name) = attribute_of(tolds[i])->0;
            collected.xattrs.contains_key(ino) && collected.xattrs[ino][name] == value_of(
                tolds[i],
            )->0
        }
    &&& forall|key: Key| #[trigger]
        collected.boundary_adds.contains(key) == tells(tolds, n, Told::BoundaryComes(key))
    &&& forall|key: Key| #[trigger]
        collected.boundary_deletes.contains(key) == tells(tolds, n, Told::BoundaryGoes(key))
}

proof fn lemma_tells_more(tolds: Seq<Told>, n: int)
    requires
        0 <= n < tolds.len(),
    ensures
        forall|told: Told| #[trigger]
            tells(tolds, n + 1, told) == (tells(tolds, n, told) || tolds[n] == told),
        forall|ino: u64| #[trigger]
            tells_change(tolds, n + 1, ino) == (tells_change(tolds, n, ino) || changed_ino(
                tolds[n],
            ) == Some(ino)),
        forall|ino: u64| #[trigger]
            tells_target(tolds, n + 1, ino) == (tells_target(tolds, n, ino) || (changed_ino(
                tolds[n],
            ) == Some(ino) && target_of(tolds[n]) is Some)),
        forall|ino: u64, name: Seq<u8>| #[trigger]
            tells_attribute(tolds, n + 1, ino, name) == (tells_attribute(tolds, n, ino, name)
                || attribute_of(tolds[n]) == Some((ino, name))),
{
    assert forall|told: Told| #[trigger]
        tells(tolds, n + 1, told) == (tells(tolds, n, told) || tolds[n] == told) by {
        if tells(tolds, n, told) {
            let i = choose|i: int| 0 <= i < n && #[trigger] tolds[i] == told;
            assert(tolds[i] == told);
        }
    }
    assert forall|ino: u64| #[trigger]
        tells_change(tolds, n + 1, ino) == (tells_change(tolds, n, ino) || changed_ino(tolds[n])
            == Some(ino)) by {
        if tells_change(tolds, n, ino) {
            let i = choose|i: int| 0 <= i < n && changed_ino(#[trigger] tolds[i]) == Some(ino);
            assert(changed_ino(tolds[i]) == Some(ino));
        }
    }
    assert forall|ino: u64| #[trigger]
        tells_target(tolds, n + 1, ino) == (tells_target(tolds, n, ino) || (changed_ino(tolds[n])
            == Some(ino) && target_of(tolds[n]) is Some)) by {
        if tells_target(tolds, n, ino) {
            let i = choose|i: int|
                0 <= i < n && changed_ino(#[trigger] tolds[i]) == Some(ino) && target_of(
                    tolds[i],
                ) is Some;
            assert(changed_ino(tolds[i]) == Some(ino));
        }
    }
    assert forall|ino: u64, name: Seq<u8>| #[trigger]
        tells_attribute(tolds, n + 1, ino, name) == (tells_attribute(tolds, n, ino, name)
            || attribute_of(tolds[n]) == Some((ino, name))) by {
        if tells_attribute(tolds, n, ino, name) {
            let i = choose|i: int|
                0 <= i < n && attribute_of(#[trigger] tolds[i]) == Some((ino, name));
            assert(attribute_of(tolds[i]) == Some((ino, name)));
        }
    }
}

proof fn lemma_earlier(collected: Collected, tolds: Seq<Told>, n: int)
    requires
        0 <= n <= tolds.len(),
        collected_exactly(collected, tolds, n),
    ensures
        forall|i: int|
            0 <= i < n && changed_ino(#[trigger] tolds[i]) is Some ==> tells_change(
                tolds,
                n,
                changed_ino(tolds[i])->0,
            ),
        forall|ino: u64| #[trigger]
            collected.targets.contains_key(ino) ==> collected.objects.contains_key(ino),
        forall|i: int|
            0 <= i < n && attribute_of(#[trigger] tolds[i]) is Some ==> tells_attribute(
                tolds,
                n,
                (attribute_of(tolds[i])->0).0,
                (attribute_of(tolds[i])->0).1,
            ),
{
    assert forall|ino: u64| #[trigger] collected.targets.contains_key(ino) implies
        collected.objects.contains_key(ino) by {
        assert(tells_target(tolds, n, ino));
        let i = choose|i: int|
            0 <= i < n && changed_ino(#[trigger] tolds[i]) == Some(ino) && target_of(
                tolds[i],
            ) is Some;
        assert(tells_change(tolds, n, ino));
    }
}

#[verifier::rlimit(60)]
proof fn lemma_collect_one(collected: Collected, tolds: Seq<Told>, n: int)
    requires
        0 <= n < tolds.len(),
        collected_exactly(collected, tolds, n),
        readable(tolds[n]),
    ensures
        match collect(collected, read_as(tolds[n])) {
            Ok(next) => {
                &&& collected_exactly(next, tolds, n + 1)
                &&& makes_sense(tolds[n])
                &&& repeats_nothing(tolds, n)
            },
            Err(_) => !makes_sense(tolds[n]) || !repeats_nothing(tolds, n),
        },
{
    lemma_tells_more(tolds, n);
    lemma_earlier(collected, tolds, n);
    match tolds[n] {
        Told::Object { ino, target, .. } => {
            assert(collected.objects.contains_key(ino) == tells_change(tolds, n, ino));
            assert(!collected.objects.contains_key(ino) ==> !collected.targets.contains_key(ino));
        },
        Told::Comes(key) => {
            assert(collected.adds.contains(key) == tells(tolds, n, Told::Comes(key)));
        },
        Told::Goes(key) => {
            assert(collected.deletes.contains(key) == tells(tolds, n, Told::Goes(key)));
        },
        Told::Resets(ino) => {
            assert(collected.xattrs.contains_key(ino) == tells(tolds, n, Told::Resets(ino)));
            if !collected.xattrs.contains_key(ino) {
                assert forall|name: Seq<u8>| !(#[trigger] tells_attribute(tolds, n + 1, ino, name)) by {
                    if tells_attribute(tolds, n, ino, name) {
                        let i = choose|i: int|
                            0 <= i < n && attribute_of(#[trigger] tolds[i]) == Some((ino, name));
                        assert(attribute_of(tolds[i]) is Some);
                    }
                }
            }
        },
        Told::Attribute { ino, name, value } => {
            assert(collected.xattrs.contains_key(ino) == tells(tolds, n, Told::Resets(ino)));
            if collected.xattrs.contains_key(ino) {
                assert(collected.xattrs[ino].contains_key(name) == tells_attribute(
                    tolds,
                    n,
                    ino,
                    name,
                ));
            }
        },
        Told::BoundaryComes(key) => {
            assert(collected.boundary_adds.contains(key) == tells(
                tolds,
                n,
                Told::BoundaryComes(key),
            ));
        },
        Told::BoundaryGoes(key) => {
            assert(collected.boundary_deletes.contains(key) == tells(
                tolds,
                n,
                Told::BoundaryGoes(key),
            ));
        },
        Told::Extension { .. } => {},
        Told::Flagged { .. } => {},
    }
}

proof fn lemma_row_prefix(pieces: Seq<Seq<u8>>, n: int)
    requires
        0 <= n <= pieces.len(),
    ensures
        in_a_row(pieces.take(n)).len() <= in_a_row(pieces).len(),
        in_a_row(pieces).subrange(0, in_a_row(pieces.take(n)).len() as int) == in_a_row(
            pieces.take(n),
        ),
    decreases pieces.len(),
{
    let whole = in_a_row(pieces);
    if n == pieces.len() {
        assert(pieces.take(n) =~= pieces);
        assert(whole.subrange(0, whole.len() as int) =~= whole);
    } else {
        let front = pieces.drop_last();
        lemma_row_prefix(front, n);
        assert(front.take(n) =~= pieces.take(n));
        let end = in_a_row(front.take(n)).len() as int;
        assert(whole.subrange(0, end) =~= in_a_row(front).subrange(0, end));
    }
}

/// Where the piece stands that is at `n` in the row behind a head.
pub open spec fn piece_at(head: Seq<u8>, pieces: Seq<Seq<u8>>, n: int) -> int {
    (head.len() + in_a_row(pieces.take(n)).len()) as int
}

proof fn lemma_row_piece(head: Seq<u8>, pieces: Seq<Seq<u8>>, tail: Seq<u8>, n: int)
    requires
        0 <= n < pieces.len(),
    ensures
        stands_at(head + in_a_row(pieces) + tail, piece_at(head, pieces, n), pieces[n]),
        piece_at(head, pieces, n + 1) == piece_at(head, pieces, n) + pieces[n].len(),
{
    let here = pieces.take(n + 1);
    assert(here.drop_last() =~= pieces.take(n));
    assert(here.last() == pieces[n]);
    lemma_row_prefix(pieces, n + 1);
    let row = in_a_row(pieces);
    let bytes = head + row + tail;
    let start = in_a_row(pieces.take(n)).len() as int;
    let end = in_a_row(here).len() as int;
    assert(row.subrange(start, end) =~= row.subrange(0, end).subrange(start, end));
    assert(in_a_row(here).subrange(start, end) =~= pieces[n]);
    assert(bytes.subrange(head.len() + start, head.len() + end) =~= row.subrange(start, end));
}

#[verifier::opaque]
spec fn walked(bytes: Seq<u8>, at: int, collected: Collected) -> Result<Collected, Seq<char>> {
    collect_from(bytes, at, collected)
}

proof fn lemma_walk_one(bytes: Seq<u8>, at: int, collected: Collected, tolds: Seq<Told>, n: int)
    requires
        0 <= n < tolds.len(),
        tellable(tolds[n]),
        stands_at(bytes, at, second_record(tolds[n])),
        bytes.len() <= usize::MAX,
        collected_exactly(collected, tolds, n),
    ensures
        match collect(collected, read_as(tolds[n])) {
            Ok(next) if readable(tolds[n]) => {
                &&& walked(bytes, at, collected) == walked(
                    bytes,
                    at + second_record(tolds[n]).len(),
                    next,
                )
                &&& collected_exactly(next, tolds, n + 1)
                &&& makes_sense(tolds[n])
                &&& repeats_nothing(tolds, n)
            },
            _ => {
                &&& walked(bytes, at, collected) is Err
                &&& !makes_sense(tolds[n]) || !repeats_nothing(tolds, n)
            },
        },
{
    reveal(walked);
    lemma_second_record(bytes, at, tolds[n]);
    if readable(tolds[n]) {
        lemma_collect_one(collected, tolds, n);
    }
}

proof fn lemma_close(front: Seq<u8>, collected: Collected, records: nat)
    requires
        collected.records == records,
        records <= u64::MAX,
        front.len() + 32 <= usize::MAX,
    ensures
        closing_record(front, records).len() == 32,
        walked(front + closing_record(front, records), front.len() as int, collected) == Ok::<
            Collected,
            Seq<char>,
        >(collected),
{
    reveal(walked);
    let closing = closing_record(front, records);
    let bytes = front + closing;
    let at = front.len() as int;
    let numbers = words(seq![records as u64, front.len() as u64]);
    let checks = four_bytes(crc32c_of(front)) + four_bytes(0);
    assert(bytes.subrange(at, at + closing.len()) =~= closing);
    lemma_framed(bytes, at, 0xffff, 0, numbers + checks);
    lemma_parts(bytes, at + 8, numbers, checks);
    lemma_words(bytes, at + 8, seq![records as u64, front.len() as u64], 0);
    lemma_words(bytes, at + 8, seq![records as u64, front.len() as u64], 1);
    lemma_parts(bytes, at + 24, four_bytes(crc32c_of(front)), four_bytes(0));
    lemma_four(bytes, at + 24, crc32c_of(front));
    lemma_four(bytes, at + 28, 0);
    assert(bytes.subrange(0, at) =~= front);
}

proof fn lemma_walk(
    head: Seq<u8>,
    tolds: Seq<Told>,
    n: int,
    collected: Collected,
)
    requires
        0 <= n <= tolds.len(),
        tolds.len() <= u64::MAX,
        forall|i: int| 0 <= i < tolds.len() ==> tellable(#[trigger] tolds[i]),
        head.len() + in_a_row(second_records(tolds)).len() + 32 <= usize::MAX,
        collected_exactly(collected, tolds, n),
        forall|i: int|
            0 <= i < n ==> makes_sense(#[trigger] tolds[i]) && repeats_nothing(tolds, i),
    ensures
        ({
            let front = head + in_a_row(second_records(tolds));
            match walked(
                front + closing_record(front, tolds.len()),
                piece_at(head, second_records(tolds), n),
                collected,
            ) {
                Ok(last) => {
                    &&& collected_exactly(last, tolds, tolds.len() as int)
                    &&& forall|i: int|
                        0 <= i < tolds.len() ==> makes_sense(#[trigger] tolds[i])
                            && repeats_nothing(tolds, i)
                },
                Err(_) => exists|i: int|
                    0 <= i < tolds.len() && !(makes_sense(#[trigger] tolds[i])
                        && repeats_nothing(tolds, i)),
            }
        }),
    decreases tolds.len() - n,
{
    let pieces = second_records(tolds);
    let front = head + in_a_row(pieces);
    let tail = closing_record(front, tolds.len());
    let bytes = front + tail;
    let at = piece_at(head, pieces, n);
    lemma_closing_length(front, tolds.len());
    if n == tolds.len() {
        lemma_close(front, collected, tolds.len());
        assert(pieces.take(n) =~= pieces);
    } else {
        assert(pieces[n] == second_record(tolds[n]));
        lemma_row_piece(head, pieces, tail, n);
        lemma_walk_one(bytes, at, collected, tolds, n);
        match collect(collected, read_as(tolds[n])) {
            Ok(next) if readable(tolds[n]) => {
                lemma_walk(head, tolds, n + 1, next);
            },
            _ => {},
        }
    }
}

/// What the kernel promises, as one number.
pub open spec fn promised(header: ChangedObjectsV2Header) -> u64 {
    if header.boundary_records {
        if header.dirty_witness {
            6
        } else {
            2
        }
    } else {
        if header.dirty_witness {
            4
        } else {
            0
        }
    }
}

proof fn lemma_header_parts(header: ChangedObjectsV2Header, rest: Seq<u8>)
    ensures
        second_header(header).len() == 112,
        ({
            let bytes = second_header(header) + rest;
            &&& bytes.subrange(0, 16) == CHANGED_OBJECTS_V2_MAGIC@
            &&& le_u32(bytes, 16) == 2
            &&& le_u32(bytes, 20) == 112
            &&& le_u64(bytes, 24) == promised(header)
            &&& stands_at(bytes, 32, header.fs_uuid@)
            &&& stands_at(bytes, 48, header.source_uuid@)
            &&& stands_at(bytes, 64, header.target_uuid@)
            &&& le_u64(bytes, 80) == header.source_ctransid
            &&& le_u64(bytes, 88) == header.target_ctransid
            &&& le_u64(bytes, 96) == header.source_root_id
            &&& le_u64(bytes, 104) == header.target_root_id
        }),
{
    let promises = promised(header);
    let magic = seq![98u8, 116, 114, 102, 115, 45, 111, 98, 106, 101, 99, 116, 115, 45, 118, 50];
    let sizes = four_bytes(2) + four_bytes(112);
    let ends = seq![
        header.source_ctransid,
        header.target_ctransid,
        header.source_root_id,
        header.target_root_id,
    ];
    let (a, b, c) = (header.fs_uuid@, header.source_uuid@, header.target_uuid@);
    let written = second_header(header);
    let bytes = written + rest;
    let front = magic + sizes + words(seq![promises]);
    assert(written == front + a + b + c + words(ends));
    assert(bytes.subrange(0, written.len() as int) =~= written);
    lemma_parts(bytes, 0, front + a + b + c, words(ends));
    lemma_parts(bytes, 0, front + a + b, c);
    lemma_parts(bytes, 0, front + a, b);
    lemma_parts(bytes, 0, front, a);
    lemma_parts(bytes, 0, magic + sizes, words(seq![promises]));
    lemma_parts(bytes, 0, magic, sizes);
    lemma_parts(bytes, 16, four_bytes(2), four_bytes(112));
    lemma_four(bytes, 16, 2);
    lemma_four(bytes, 20, 112);
    lemma_words(bytes, 24, seq![promises], 0);
    lemma_words(bytes, 80, ends, 0);
    lemma_words(bytes, 80, ends, 1);
    lemma_words(bytes, 80, ends, 2);
    lemma_words(bytes, 80, ends, 3);
    assert(bytes.subrange(0, 16) =~= CHANGED_OBJECTS_V2_MAGIC@);
}

proof fn lemma_promises(header: ChangedObjectsV2Header)
    ensures
        promised(header) & !6u64 == 0,
        (promised(header) & 2 != 0) == header.boundary_records,
        (promised(header) & 4 != 0) == header.dirty_witness,
{
    assert(6u64 & !6u64 == 0 && 4u64 & !6u64 == 0 && 2u64 & !6u64 == 0 && 0u64 & !6u64 == 0 && 6u64
        & 2 != 0 && 6u64 & 4 != 0 && 4u64 & 2 == 0 && 4u64 & 4 != 0 && 2u64 & 2 != 0 && 2u64 & 4
        == 0 && 0u64 & 2 == 0 && 0u64 & 4 == 0) by (bit_vector);
}

proof fn lemma_second_header(header: ChangedObjectsV2Header, rest: Seq<u8>)
    requires
        rest.len() >= 32,
    ensures
        second_header(header).len() == 112,
        (stream_header_fault(second_header(header) + rest) is None) == header_makes_sense(header),
        stream_header(second_header(header) + rest) == header,
{
    let bytes = second_header(header) + rest;
    lemma_header_parts(header, rest);
    lemma_promises(header);
    lemma_sixteen(bytes, 32, header.fs_uuid);
    lemma_sixteen(bytes, 48, header.source_uuid);
    lemma_sixteen(bytes, 64, header.target_uuid);
}

proof fn lemma_sixteen(bytes: Seq<u8>, at: int, id: [u8; 16])
    requires
        stands_at(bytes, at, id@),
    ensures
        array_16(bytes, at) == id,
        zero_id(id) == !is_there(id),
{
    let found = array_16(bytes, at);
    assert(found@ == id@);
    assert(found =~= id);
    if !is_there(id) {
        assert forall|i: int| 0 <= i < 16 implies id@[i] == 0 by {}
    }
}

/// Whether a stream that was read holds exactly what is told: its endpoints, how
/// every inode changed and what it is now, the entries that came or went for good,
/// all attributes of the inodes that were reset, and the boundaries.
pub open spec fn holds_exactly(
    view: StreamView,
    header: ChangedObjectsV2Header,
    tolds: Seq<Told>,
) -> bool {
    let all = tolds.len() as int;
    &&& view.header == header
    &&& changes_exactly(view.manifest, tolds)
    &&& forall|ino: u64| #[trigger]
        view.target_objects.contains_key(ino) == tells_target(tolds, all, ino)
    &&& forall|i: int|
        0 <= i < all && target_of(#[trigger] tolds[i]) is Some ==> view.target_objects[changed_ino(
            tolds[i],
        )->0] == target_of(tolds[i])->0
    &&& forall|ino: u64| #[trigger]
        view.target_security_xattrs.contains_key(ino) == tells(tolds, all, Told::Resets(ino))
    &&& forall|ino: u64, name: Seq<u8>|
        view.target_security_xattrs.contains_key(ino)
            ==> #[trigger] view.target_security_xattrs[ino].contains_key(name) == tells_attribute(
            tolds,
            all,
            ino,
            name,
        )
    &&& forall|i: int|
        0 <= i < all && attribute_of(#[trigger] tolds[i]) is Some ==> {
            let (ino, name) = attribute_of(tolds[i])->0;
            view.target_security_xattrs[ino][name] == value_of(tolds[i])->0
        }
    &&& forall|key: Key| #[trigger]
        view.boundary_adds.contains(key) == (tells(tolds, all, Told::BoundaryComes(key)) && !tells(
            tolds,
            all,
            Told::BoundaryGoes(key),
        ))
    &&& forall|key: Key| #[trigger]
        view.boundary_deletes.contains(key) == (tells(tolds, all, Told::BoundaryGoes(key)) && !tells(
            tolds,
            all,
            Told::BoundaryComes(key),
        ))
}

/// Whether a manifest holds exactly the changes that are told.
pub open spec fn changes_exactly(manifest: ManifestView, tolds: Seq<Told>) -> bool {
    let all = tolds.len() as int;
    &&& forall|ino: u64| #[trigger]
        manifest.objects.contains_key(ino) == tells_change(tolds, all, ino)
    &&& forall|i: int|
        0 <= i < all && changed_ino(#[trigger] tolds[i]) is Some ==> manifest.objects[changed_ino(
            tolds[i],
        )->0] == change_of(tolds[i])->0
    &&& forall|key: Key| #[trigger]
        manifest.ref_adds.contains(key) == (tells(tolds, all, Told::Comes(key)) && !tells(
            tolds,
            all,
            Told::Goes(key),
        ))
    &&& forall|key: Key| #[trigger]
        manifest.ref_deletes.contains(key) == (tells(tolds, all, Told::Goes(key)) && !tells(
            tolds,
            all,
            Told::Comes(key),
        ))
    &&& manifest.raw_ref_adds == comings(tolds, all)
    &&& manifest.raw_ref_deletes == goings(tolds, all)
}

proof fn lemma_together(collected: Collected, tolds: Seq<Told>)
    requires
        collected_exactly(collected, tolds, tolds.len() as int),
    ensures
        (all_belong(collected.objects, collected.adds)
            && all_belong(collected.objects, collected.deletes)
            && all_survive(collected)) == (forall|i: int|
            0 <= i < tolds.len() ==> belongs_there(tolds, #[trigger] tolds[i])),
{
    let all = tolds.len() as int;
    assert forall|ino: u64| #[trigger] tells_entries(tolds, ino) == (
    collected.objects.contains_key(ino) && collected.objects[ino].change_mask & 2 != 0) by {
        if tells_entries(tolds, ino) {
            let i = choose|i: int|
                0 <= i < tolds.len() && changed_ino(#[trigger] tolds[i]) == Some(ino) && change_of(
                    tolds[i],
                )->0.change_mask & 2 != 0;
            assert(changed_ino(tolds[i]) is Some);
            assert(tells_change(tolds, all, ino));
        }
        if collected.objects.contains_key(ino) {
            let i = choose|i: int| 0 <= i < all && changed_ino(#[trigger] tolds[i]) == Some(ino);
            assert(changed_ino(tolds[i]) is Some);
        }
    }
    assert forall|ino: u64| #[trigger] tells_survivor(tolds, ino) == (
    collected.objects.contains_key(ino) && collected.objects[ino].change_mask & 64 == 0
        && collected.targets.contains_key(ino)) by {
        if tells_survivor(tolds, ino) {
            let i = choose|i: int|
                0 <= i < tolds.len() && changed_ino(#[trigger] tolds[i]) == Some(ino) && change_of(
                    tolds[i],
                )->0.change_mask & 64 == 0 && target_of(tolds[i]) is Some;
            assert(changed_ino(tolds[i]) is Some);
            assert(tells_change(tolds, all, ino));
            assert(tells_target(tolds, all, ino));
        }
        if collected.targets.contains_key(ino) {
            assert(tells_target(tolds, all, ino));
            let i = choose|i: int|
                0 <= i < all && changed_ino(#[trigger] tolds[i]) == Some(ino) && target_of(
                    tolds[i],
                ) is Some;
            assert(changed_ino(tolds[i]) is Some);
        }
    }
    if forall|i: int| 0 <= i < tolds.len() ==> belongs_there(tolds, #[trigger] tolds[i]) {
        assert forall|key: Key| #[trigger] collected.adds.contains(key) implies
            belongs(collected.objects, key) by {
            let i = choose|i: int| 0 <= i < all && #[trigger] tolds[i] == Told::Comes(key);
            assert(belongs_there(tolds, tolds[i]));
        }
        assert forall|key: Key| #[trigger] collected.deletes.contains(key) implies
            belongs(collected.objects, key) by {
            let i = choose|i: int| 0 <= i < all && #[trigger] tolds[i] == Told::Goes(key);
            assert(belongs_there(tolds, tolds[i]));
        }
        assert forall|ino: u64| #[trigger] collected.xattrs.contains_key(ino) implies
            survives(collected, ino) by {
            let i = choose|i: int| 0 <= i < all && #[trigger] tolds[i] == Told::Resets(ino);
            assert(belongs_there(tolds, tolds[i]));
        }
    } else {
        let i = choose|i: int| 0 <= i < tolds.len() && !belongs_there(tolds, #[trigger] tolds[i]);
        match tolds[i] {
            Told::Comes(key) => {
                assert(tells(tolds, all, Told::Comes(key)));
                assert(collected.adds.contains(key));
            },
            Told::Goes(key) => {
                assert(tells(tolds, all, Told::Goes(key)));
                assert(collected.deletes.contains(key));
            },
            Told::Resets(ino) => {
                assert(tells(tolds, all, Told::Resets(ino)));
                assert(collected.xattrs.contains_key(ino));
            },
            _ => {},
        }
    }
}

/// Whatever the kernel tells in the second format is read back: the stream is
/// accepted exactly where what it tells makes sense, and what is read holds exactly
/// what was told, field by field.
pub proof fn law_second_format_is_read_back(header: ChangedObjectsV2Header, tolds: Seq<Told>)
    requires
        forall|i: int| 0 <= i < tolds.len() ==> tellable(#[trigger] tolds[i]),
        second_stream(header, tolds).len() <= usize::MAX,
        tolds.len() <= u64::MAX,
    ensures
        match stream_of(second_stream(header, tolds)) {
            Ok(view) => {
                &&& header_makes_sense(header)
                &&& second_makes_sense(tolds)
                &&& holds_exactly(view, header, tolds)
            },
            Err(_) => !header_makes_sense(header) || !second_makes_sense(tolds),
        },
{
    let head = second_header(header);
    let pieces = second_records(tolds);
    let front = head + in_a_row(pieces);
    let tail = closing_record(front, tolds.len());
    let bytes = second_stream(header, tolds);
    lemma_closing_length(front, tolds.len());
    assert(bytes =~= head + (in_a_row(pieces) + tail));
    lemma_second_header(header, in_a_row(pieces) + tail);
    assert(pieces.take(0) =~= Seq::empty());
    lemma_walk(head, tolds, 0, nothing_collected());
    lemma_walked(bytes, 112, nothing_collected());
    if let Ok(last) = walked(bytes, 112, nothing_collected()) {
        lemma_concluded(header, last, tolds);
    }
    lemma_stream(header, bytes);
}

proof fn lemma_walked(bytes: Seq<u8>, at: int, collected: Collected)
    ensures
        walked(bytes, at, collected) == collect_from(bytes, at, collected),
{
    reveal(walked);
}

proof fn lemma_stream(header: ChangedObjectsV2Header, bytes: Seq<u8>)
    requires
        stream_header(bytes) == header,
    ensures
        stream_of(bytes) == match stream_header_fault(bytes) {
            Some(fault) => Err::<StreamView, Seq<char>>(fault),
            None => match walked(bytes, 112, nothing_collected()) {
                Err(fault) => Err(fault),
                Ok(last) => conclude_stream(header, last),
            },
        },
{
    reveal(walked);
}

proof fn lemma_concluded(header: ChangedObjectsV2Header, last: Collected, tolds: Seq<Told>)
    requires
        collected_exactly(last, tolds, tolds.len() as int),
    ensures
        match conclude_stream(header, last) {
            Ok(view) => {
                &&& holds_exactly(view, header, tolds)
                &&& forall|i: int|
                    0 <= i < tolds.len() ==> belongs_there(tolds, #[trigger] tolds[i])
            },
            Err(_) => exists|i: int|
                0 <= i < tolds.len() && !belongs_there(tolds, #[trigger] tolds[i]),
        },
{
    lemma_together(last, tolds);
}

proof fn lemma_closing_length(front: Seq<u8>, records: nat)
    ensures
        closing_record(front, records).len() == 32,
{
}

/// The record of the first format that tells it.
pub open spec fn first_record(told: Told) -> Seq<u8> {
    match told {
        Told::Object { ino, old, new, mask, .. } => framed(1, 0, words(seq![ino, old, new, mask])),
        _ => second_record(told),
    }
}

/// Whether the first format can tell it: inodes and entries, and what it refuses.
pub open spec fn first_tellable(told: Told) -> bool {
    match told {
        Told::Object { target, .. } => target is None,
        Told::Comes(key) => key.name.len() <= 0x1000_0000,
        Told::Goes(key) => key.name.len() <= 0x1000_0000,
        Told::Extension { .. } => tellable(told),
        Told::Flagged { .. } => tellable(told),
        _ => false,
    }
}

/// The records of the first format.
pub open spec fn first_records(tolds: Seq<Told>) -> Seq<Seq<u8>> {
    tolds.map_values(|told: Told| first_record(told))
}

/// A stream of the first format: its magic number, its version, its length and the
/// records.
pub open spec fn first_stream(tolds: Seq<Told>) -> Seq<u8> {
    first_header() + in_a_row(first_records(tolds))
}

/// The header of the first format.
pub open spec fn first_header() -> Seq<u8> {
    seq![98u8, 116, 114, 102, 115, 45, 99, 104, 97, 110, 103, 101, 115, 0, 0, 0] + (four_bytes(1)
        + four_bytes(24))
}

/// Whether it makes sense in the first format, which has no extensions.
pub open spec fn first_sense(told: Told) -> bool {
    !(told is Extension) && makes_sense(told)
}

/// Whether it belongs to what is told besides: an entry to an inode that changed its
/// entries, and such an inode to an entry.
pub open spec fn first_belongs(tolds: Seq<Told>, told: Told) -> bool {
    match told {
        Told::Comes(key) => tells_entries(tolds, key.first),
        Told::Goes(key) => tells_entries(tolds, key.first),
        Told::Object { ino, mask, .. } => mask & 2 != 0 ==> tells_entry_of(tolds, ino),
        _ => true,
    }
}

/// Whether an entry of the inode came or went.
pub open spec fn tells_entry_of(tolds: Seq<Told>, ino: u64) -> bool {
    exists|i: int|
        0 <= i < tolds.len() && (match #[trigger] tolds[i] {
            Told::Comes(key) => key.first == ino,
            Told::Goes(key) => key.first == ino,
            _ => false,
        })
}

/// Whether what is told in the first format makes sense together.
pub open spec fn first_makes_sense(tolds: Seq<Told>) -> bool {
    forall|i: int|
        0 <= i < tolds.len() ==> first_sense(#[trigger] tolds[i]) && repeats_nothing(tolds, i)
            && first_belongs(tolds, tolds[i])
}

spec fn gathered_exactly(gathered: Gathered, tolds: Seq<Told>, n: int) -> bool {
    &&& forall|ino: u64| #[trigger]
        gathered.objects.contains_key(ino) == tells_change(tolds, n, ino)
    &&& forall|i: int|
        0 <= i < n && changed_ino(#[trigger] tolds[i]) is Some ==> gathered.objects[changed_ino(
            tolds[i],
        )->0] == change_of(tolds[i])->0
    &&& forall|key: Key| #[trigger]
        gathered.adds.contains(key) == tells(tolds, n, Told::Comes(key))
    &&& forall|key: Key| #[trigger]
        gathered.deletes.contains(key) == tells(tolds, n, Told::Goes(key))
    &&& gathered.objects.dom().finite()
    &&& gathered.adds.finite()
    &&& gathered.deletes.finite()
    &&& gathered.adds.len() == comings(tolds, n)
    &&& gathered.deletes.len() == goings(tolds, n)
}

spec fn first_read_as(told: Told) -> Record {
    match told {
        Told::Comes(key) => Record::RefAdd(key),
        Told::Goes(key) => Record::RefDelete(key),
        _ => Record::Object(change_of(told)->0),
    }
}

proof fn lemma_first_record(bytes: Seq<u8>, at: int, told: Told)
    requires
        first_tellable(told),
        stands_at(bytes, at, first_record(told)),
        bytes.len() <= usize::MAX,
    ensures
        record_end(bytes, at) == at + first_record(told).len(),
        first_record(told).len() >= 8,
        match record_at(bytes, at) {
            Ok(record) => first_sense(told) && record == first_read_as(told),
            Err(_) => !first_sense(told),
        },
{
    match told {
        Told::Object { ino, old, new, mask, .. } => {
            let values = seq![ino, old, new, mask];
            lemma_framed(bytes, at, 1, 0, words(values));
            lemma_words(bytes, at + 8, values, 0);
            lemma_words(bytes, at + 8, values, 1);
            lemma_words(bytes, at + 8, values, 2);
            lemma_words(bytes, at + 8, values, 3);
            lemma_mask(mask);
        },
        Told::Comes(key) => {
            lemma_framed(bytes, at, 2, 0, entry_body(key));
            lemma_entry(bytes, at + 8, key);
            lemma_name_rule(key.name);
        },
        Told::Goes(key) => {
            lemma_framed(bytes, at, 3, 0, entry_body(key));
            lemma_entry(bytes, at + 8, key);
            lemma_name_rule(key.name);
        },
        Told::Extension { kind, flags, body } => {
            lemma_framed(bytes, at, kind, flags, body);
        },
        Told::Flagged { kind, flags, body } => {
            lemma_framed(bytes, at, kind, flags, body);
        },
        _ => {},
    }
}

proof fn lemma_gather_one(gathered: Gathered, tolds: Seq<Told>, n: int)
    requires
        0 <= n < tolds.len(),
        gathered_exactly(gathered, tolds, n),
        first_tellable(tolds[n]),
        first_sense(tolds[n]),
    ensures
        match gather(gathered, first_read_as(tolds[n])) {
            Ok(next) => gathered_exactly(next, tolds, n + 1) && repeats_nothing(tolds, n),
            Err(_) => !repeats_nothing(tolds, n),
        },
{
    lemma_tells_more(tolds, n);
    assert forall|i: int| 0 <= i < n && changed_ino(#[trigger] tolds[i]) is Some implies
        tells_change(tolds, n, changed_ino(tolds[i])->0) by {}
    match tolds[n] {
        Told::Object { ino, .. } => {
            assert(gathered.objects.contains_key(ino) == tells_change(tolds, n, ino));
        },
        Told::Comes(key) => {
            assert(gathered.adds.contains(key) == tells(tolds, n, Told::Comes(key)));
        },
        Told::Goes(key) => {
            assert(gathered.deletes.contains(key) == tells(tolds, n, Told::Goes(key)));
        },
        _ => {},
    }
}

#[verifier::opaque]
spec fn first_walked(bytes: Seq<u8>, at: int, gathered: Gathered) -> Result<Gathered, Seq<char>> {
    gather_from(bytes, at, gathered)
}

proof fn lemma_first_step(bytes: Seq<u8>, at: int, gathered: Gathered, tolds: Seq<Told>, n: int)
    requires
        0 <= n < tolds.len(),
        first_tellable(tolds[n]),
        stands_at(bytes, at, first_record(tolds[n])),
        bytes.len() <= usize::MAX,
        gathered_exactly(gathered, tolds, n),
    ensures
        match gather(gathered, first_read_as(tolds[n])) {
            Ok(next) if first_sense(tolds[n]) => {
                &&& first_walked(bytes, at, gathered) == first_walked(
                    bytes,
                    at + first_record(tolds[n]).len(),
                    next,
                )
                &&& gathered_exactly(next, tolds, n + 1)
                &&& repeats_nothing(tolds, n)
            },
            _ => {
                &&& first_walked(bytes, at, gathered) is Err
                &&& !first_sense(tolds[n]) || !repeats_nothing(tolds, n)
            },
        },
{
    reveal(first_walked);
    lemma_first_record(bytes, at, tolds[n]);
    if first_sense(tolds[n]) {
        lemma_gather_one(gathered, tolds, n);
    }
}

proof fn lemma_first_walk(tolds: Seq<Told>, n: int, gathered: Gathered)
    requires
        0 <= n <= tolds.len(),
        forall|i: int| 0 <= i < tolds.len() ==> first_tellable(#[trigger] tolds[i]),
        first_stream(tolds).len() <= usize::MAX,
        gathered_exactly(gathered, tolds, n),
        forall|i: int|
            0 <= i < n ==> first_sense(#[trigger] tolds[i]) && repeats_nothing(tolds, i),
    ensures
        match first_walked(
            first_stream(tolds),
            piece_at(first_header(), first_records(tolds), n),
            gathered,
        ) {
            Ok(last) => {
                &&& gathered_exactly(last, tolds, tolds.len() as int)
                &&& forall|i: int|
                    0 <= i < tolds.len() ==> first_sense(#[trigger] tolds[i]) && repeats_nothing(
                        tolds,
                        i,
                    )
            },
            Err(_) => exists|i: int|
                0 <= i < tolds.len() && !(first_sense(#[trigger] tolds[i]) && repeats_nothing(
                    tolds,
                    i,
                )),
        },
    decreases tolds.len() - n,
{
    let pieces = first_records(tolds);
    let head = first_header();
    let bytes = first_stream(tolds);
    if n == tolds.len() {
        assert(pieces.take(n) =~= pieces);
        reveal(first_walked);
    } else {
        assert(pieces[n] == first_record(tolds[n]));
        lemma_row_piece(head, pieces, Seq::empty(), n);
        assert(head + in_a_row(pieces) + Seq::<u8>::empty() =~= bytes);
        lemma_first_step(bytes, piece_at(head, pieces, n), gathered, tolds, n);
        match gather(gathered, first_read_as(tolds[n])) {
            Ok(next) if first_sense(tolds[n]) => {
                lemma_first_walk(tolds, n + 1, next);
            },
            _ => {},
        }
    }
}

proof fn lemma_orphans(objects: Map<u64, ObjectChange>, keys: Seq<Key>)
    ensures
        (first_orphan_fault(objects, keys) is None) == (forall|i: int|
            0 <= i < keys.len() ==> orphan_fault(objects, #[trigger] keys[i]) is None),
    decreases keys.len(),
{
    if keys.len() > 0 {
        let rest = keys.drop_first();
        lemma_orphans(objects, rest);
        assert forall|i: int| 0 <= i < rest.len() implies rest[i] == #[trigger] keys[i + 1] by {}
        if orphan_fault(objects, keys[0]) is None && first_orphan_fault(objects, rest) is None {
            assert forall|i: int| 0 <= i < keys.len() implies orphan_fault(
                objects,
                #[trigger] keys[i],
            ) is None by {
                if i > 0 {
                    assert(orphan_fault(objects, rest[i - 1]) is None);
                }
            }
        } else if orphan_fault(objects, keys[0]) is None {
            let i = choose|i: int|
                0 <= i < rest.len() && orphan_fault(objects, #[trigger] rest[i]) is Some;
            assert(orphan_fault(objects, keys[i + 1]) is Some);
        }
    }
}

proof fn lemma_unreferenced(gathered: Gathered, inos: Seq<u64>)
    ensures
        (first_unreferenced(gathered, inos) is None) == (forall|i: int|
            0 <= i < inos.len() ==> !unreferenced(gathered, #[trigger] inos[i])),
    decreases inos.len(),
{
    if inos.len() > 0 {
        let rest = inos.drop_first();
        lemma_unreferenced(gathered, rest);
        assert forall|i: int| 0 <= i < rest.len() implies rest[i] == #[trigger] inos[i + 1] by {}
        if !unreferenced(gathered, inos[0]) && first_unreferenced(gathered, rest) is None {
            assert forall|i: int| 0 <= i < inos.len() implies !unreferenced(
                gathered,
                #[trigger] inos[i],
            ) by {
                if i > 0 {
                    assert(!unreferenced(gathered, rest[i - 1]));
                }
            }
        } else if !unreferenced(gathered, inos[0]) {
            let i = choose|i: int| 0 <= i < rest.len() && unreferenced(gathered, #[trigger] rest[i]);
            assert(unreferenced(gathered, inos[i + 1]));
        }
    }
}

proof fn lemma_gathered_entries(gathered: Gathered, tolds: Seq<Told>, ino: u64)
    requires
        gathered_exactly(gathered, tolds, tolds.len() as int),
    ensures
        tells_entries(tolds, ino) == (gathered.objects.contains_key(ino)
            && gathered.objects[ino].change_mask & 2 != 0),
        tells_entry_of(tolds, ino) == (names_inode(gathered.adds, ino) || names_inode(
            gathered.deletes,
            ino,
        )),
{
    let all = tolds.len() as int;
    if tells_entries(tolds, ino) {
        let i = choose|i: int|
            0 <= i < tolds.len() && changed_ino(#[trigger] tolds[i]) == Some(ino) && change_of(
                tolds[i],
            )->0.change_mask & 2 != 0;
        assert(changed_ino(tolds[i]) is Some);
        assert(tells_change(tolds, all, ino));
    }
    if gathered.objects.contains_key(ino) {
        let i = choose|i: int| 0 <= i < all && changed_ino(#[trigger] tolds[i]) == Some(ino);
        assert(changed_ino(tolds[i]) is Some);
    }
    if tells_entry_of(tolds, ino) {
        let i = choose|i: int|
            0 <= i < tolds.len() && (match #[trigger] tolds[i] {
                Told::Comes(key) => key.first == ino,
                Told::Goes(key) => key.first == ino,
                _ => false,
            });
        match tolds[i] {
            Told::Comes(key) => {
                assert(tells(tolds, all, Told::Comes(key)));
                assert(gathered.adds.contains(key));
            },
            Told::Goes(key) => {
                assert(tells(tolds, all, Told::Goes(key)));
                assert(gathered.deletes.contains(key));
            },
            _ => {},
        }
    }
    if names_inode(gathered.adds, ino) {
        let key = choose|key: Key| #[trigger] gathered.adds.contains(key) && key.first == ino;
        let i = choose|i: int| 0 <= i < all && #[trigger] tolds[i] == Told::Comes(key);
        assert(tolds[i] is Comes);
    }
    if names_inode(gathered.deletes, ino) {
        let key = choose|key: Key| #[trigger] gathered.deletes.contains(key) && key.first == ino;
        let i = choose|i: int| 0 <= i < all && #[trigger] tolds[i] == Told::Goes(key);
        assert(tolds[i] is Goes);
    }
}

proof fn lemma_first_together(gathered: Gathered, tolds: Seq<Told>)
    requires
        gathered_exactly(gathered, tolds, tolds.len() as int),
    ensures
        match conclude(gathered) {
            Ok(view) => {
                &&& changes_exactly(view, tolds)
                &&& forall|i: int|
                    0 <= i < tolds.len() ==> first_belongs(tolds, #[trigger] tolds[i])
            },
            Err(_) => exists|i: int|
                0 <= i < tolds.len() && !first_belongs(tolds, #[trigger] tolds[i]),
        },
{
    let all = tolds.len() as int;
    let keys = in_order(gathered.adds) + in_order(gathered.deletes);
    let inos = numbers_in_order(gathered.objects.dom());
    lemma_orphans(gathered.objects, keys);
    lemma_unreferenced(gathered, inos);
    lemma_in_order(gathered.adds);
    lemma_in_order(gathered.deletes);
    lemma_numbers_in_order(gathered.objects.dom());
    let fine = first_orphan_fault(gathered.objects, keys) is None && first_unreferenced(
        gathered,
        inos,
    ) is None;
    if fine {
        assert forall|i: int| 0 <= i < tolds.len() implies first_belongs(
            tolds,
            #[trigger] tolds[i],
        ) by {
            match tolds[i] {
                Told::Comes(key) => {
                    assert(tells(tolds, all, Told::Comes(key)));
                    assert(in_order(gathered.adds).to_set().contains(key));
                    let k = choose|k: int|
                        0 <= k < in_order(gathered.adds).len() && in_order(gathered.adds)[k] == key;
                    assert(keys[k] == key);
                    lemma_gathered_entries(gathered, tolds, key.first);
                },
                Told::Goes(key) => {
                    assert(tells(tolds, all, Told::Goes(key)));
                    assert(in_order(gathered.deletes).to_set().contains(key));
                    let k = choose|k: int|
                        0 <= k < in_order(gathered.deletes).len() && in_order(gathered.deletes)[k]
                            == key;
                    assert(keys[in_order(gathered.adds).len() + k] == key);
                    lemma_gathered_entries(gathered, tolds, key.first);
                },
                Told::Object { ino, mask, .. } => {
                    assert(changed_ino(tolds[i]) is Some);
                    assert(tells_change(tolds, all, ino));
                    assert(gathered.objects.dom().contains(ino));
                    assert(inos.to_set().contains(ino));
                    let k = choose|k: int| 0 <= k < inos.len() && inos[k] == ino;
                    assert(!unreferenced(gathered, inos[k]));
                    lemma_gathered_entries(gathered, tolds, ino);
                },
                _ => {},
            }
        }
    } else if first_orphan_fault(gathered.objects, keys) is Some {
        let k = choose|k: int|
            0 <= k < keys.len() && orphan_fault(gathered.objects, #[trigger] keys[k]) is Some;
        let key = keys[k];
        lemma_gathered_entries(gathered, tolds, key.first);
        if k < in_order(gathered.adds).len() {
            assert(in_order(gathered.adds).to_set().contains(key));
            let i = choose|i: int| 0 <= i < all && #[trigger] tolds[i] == Told::Comes(key);
            assert(!first_belongs(tolds, tolds[i]));
        } else {
            assert(in_order(gathered.deletes)[k - in_order(gathered.adds).len()] == key);
            assert(in_order(gathered.deletes).to_set().contains(key));
            let i = choose|i: int| 0 <= i < all && #[trigger] tolds[i] == Told::Goes(key);
            assert(!first_belongs(tolds, tolds[i]));
        }
    } else {
        let k = choose|k: int| 0 <= k < inos.len() && unreferenced(gathered, #[trigger] inos[k]);
        let ino = inos[k];
        assert(inos.to_set().contains(ino));
        lemma_gathered_entries(gathered, tolds, ino);
        let i = choose|i: int| 0 <= i < all && changed_ino(#[trigger] tolds[i]) == Some(ino);
        assert(changed_ino(tolds[i]) is Some);
        assert(!first_belongs(tolds, tolds[i]));
    }
}

/// Whatever the kernel tells in the first format is read back: the stream is
/// accepted exactly where what it tells makes sense, and the manifest holds exactly
/// the changes that were told.
pub proof fn law_first_format_is_read_back(tolds: Seq<Told>)
    requires
        forall|i: int| 0 <= i < tolds.len() ==> first_tellable(#[trigger] tolds[i]),
        first_stream(tolds).len() <= usize::MAX,
    ensures
        match manifest_of(first_stream(tolds)) {
            Ok(view) => first_makes_sense(tolds) && changes_exactly(view, tolds),
            Err(_) => !first_makes_sense(tolds),
        },
{
    let bytes = first_stream(tolds);
    let magic = seq![98u8, 116, 114, 102, 115, 45, 99, 104, 97, 110, 103, 101, 115, 0, 0, 0];
    let sizes = four_bytes(1) + four_bytes(24);
    assert(bytes.subrange(0, first_header().len() as int) =~= magic + sizes);
    lemma_parts(bytes, 0, magic, sizes);
    lemma_parts(bytes, 16, four_bytes(1), four_bytes(24));
    lemma_four(bytes, 16, 1);
    lemma_four(bytes, 20, 24);
    assert(bytes.subrange(0, 16) =~= CHANGED_OBJECTS_MAGIC@);
    assert(first_records(tolds).take(0) =~= Seq::empty());
    lemma_first_walk(tolds, 0, nothing_gathered());
    lemma_first_walked(bytes);
    if let Ok(last) = first_walked(bytes, 24, nothing_gathered()) {
        lemma_first_together(last, tolds);
    }
}

proof fn lemma_first_walked(bytes: Seq<u8>)
    ensures
        manifest_of(bytes) == match header_fault(bytes) {
            Some(fault) => Err::<ManifestView, Seq<char>>(fault),
            None => match first_walked(bytes, 24, nothing_gathered()) {
                Err(fault) => Err(fault),
                Ok(last) => conclude(last),
            },
        },
{
    reveal(first_walked);
}

} // verus!
