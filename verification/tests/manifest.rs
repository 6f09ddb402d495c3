//! Parsing the two formats of changed-object streams.

use btrfs_awacs::crc32c::crc32c;
use btrfs_awacs::manifest::{
    parse_changed_objects, parse_changed_objects_v2, read_u16, read_u32, read_u64,
    CHANGED_OBJECTS_MAGIC, CHANGED_OBJECTS_V2_MAGIC, CHANGED_OBJECTS_V2_VERSION, CHANGED_OBJECTS_VERSION, CHANGE_CREATED,
    CHANGE_DELETED, CHANGE_INODE, CHANGE_REF, CHANGE_XATTR, HEADER_SIZE, OBJECT_RECORD_SIZE,
    RECORD_HEADER_SIZE, RECORD_OBJECT, RECORD_REF_ADD, RECORD_REF_DELETE, REF_RECORD_SIZE,
};
use btrfs_awacs::manifest_v2::{
    fixed_16, RECORD_BOUNDARY_ADD, RECORD_BOUNDARY_DELETE, RECORD_COMPLETION, RECORD_OPTIONAL,
    RECORD_TARGET_VALID, RECORD_XATTR, RECORD_XATTR_RESET, V2_BOUNDARY_RECORDS, V2_COMPLETION_SIZE,
    V2_DIRTY_WITNESS, V2_HEADER_SIZE, V2_OBJECT_RECORD_SIZE, V2_XATTR_RECORD_SIZE,
    V2_XATTR_RESET_SIZE,
};

fn push_u16(bytes: &mut Vec<u8>, value: u16) {
    bytes.extend_from_slice(&value.to_le_bytes());
}

fn push_u32(bytes: &mut Vec<u8>, value: u32) {
    bytes.extend_from_slice(&value.to_le_bytes());
}

fn push_u64(bytes: &mut Vec<u8>, value: u64) {
    bytes.extend_from_slice(&value.to_le_bytes());
}

fn header() -> Vec<u8> {
    let mut bytes = CHANGED_OBJECTS_MAGIC.to_vec();
    push_u32(&mut bytes, CHANGED_OBJECTS_VERSION);
    push_u32(&mut bytes, HEADER_SIZE as u32);
    bytes
}

fn push_object(bytes: &mut Vec<u8>, ino: u64, old: u64, new: u64, mask: u64) {
    push_u16(bytes, RECORD_OBJECT);
    push_u16(bytes, 0);
    push_u32(bytes, OBJECT_RECORD_SIZE as u32);
    push_u64(bytes, ino);
    push_u64(bytes, old);
    push_u64(bytes, new);
    push_u64(bytes, mask);
}

fn push_ref(bytes: &mut Vec<u8>, kind: u16, ino: u64, parent: u64, name: &[u8]) {
    push_u16(bytes, kind);
    push_u16(bytes, 0);
    push_u32(bytes, REF_RECORD_SIZE as u32 + name.len() as u32);
    push_u64(bytes, ino);
    push_u64(bytes, parent);
    bytes.extend_from_slice(name);
}

fn complete(bytes: &mut Vec<u8>, records: u64) {
    let completion_offset = bytes.len();
    let checksum = crc32c(bytes);
    push_u16(bytes, RECORD_COMPLETION);
    push_u16(bytes, 0);
    push_u32(bytes, V2_COMPLETION_SIZE as u32);
    push_u64(bytes, records);
    push_u64(bytes, completion_offset as u64);
    push_u32(bytes, checksum);
    push_u32(bytes, 0);
}

fn v2_fixture() -> Vec<u8> {
    let mut bytes = CHANGED_OBJECTS_V2_MAGIC.to_vec();
    push_u32(&mut bytes, CHANGED_OBJECTS_V2_VERSION);
    push_u32(&mut bytes, V2_HEADER_SIZE as u32);
    push_u64(&mut bytes, V2_BOUNDARY_RECORDS | V2_DIRTY_WITNESS);
    bytes.extend_from_slice(&[1; 16]);
    bytes.extend_from_slice(&[2; 16]);
    bytes.extend_from_slice(&[3; 16]);
    push_u64(&mut bytes, 10);
    push_u64(&mut bytes, 11);
    push_u64(&mut bytes, 256);
    push_u64(&mut bytes, 257);

    push_u16(&mut bytes, RECORD_OBJECT);
    push_u16(&mut bytes, RECORD_TARGET_VALID);
    push_u32(&mut bytes, V2_OBJECT_RECORD_SIZE as u32);
    for value in [300, 7, 7, CHANGE_REF | CHANGE_XATTR, 12, 11, 0o100_644, 1, 1000, 1000, 0] {
        push_u64(&mut bytes, value);
    }

    push_ref(&mut bytes, RECORD_REF_ADD, 300, 256, b"file");

    push_u16(&mut bytes, RECORD_XATTR_RESET);
    push_u16(&mut bytes, 0);
    push_u32(&mut bytes, V2_XATTR_RESET_SIZE as u32);
    push_u64(&mut bytes, 300);

    let name = b"security.test";
    let value = b"value";
    push_u16(&mut bytes, RECORD_XATTR);
    push_u16(&mut bytes, 0);
    push_u32(&mut bytes, (V2_XATTR_RECORD_SIZE + name.len() + value.len()) as u32);
    push_u64(&mut bytes, 300);
    push_u32(&mut bytes, name.len() as u32);
    push_u32(&mut bytes, value.len() as u32);
    bytes.extend_from_slice(name);
    bytes.extend_from_slice(value);

    push_u16(&mut bytes, 100);
    push_u16(&mut bytes, RECORD_OPTIONAL);
    push_u32(&mut bytes, 12);
    bytes.extend_from_slice(b"extn");

    complete(&mut bytes, 5);
    bytes
}

#[test]
fn parses_authenticated_v2_stream_and_skips_optional_extensions() {
    let bytes = v2_fixture();
    let parsed = parse_changed_objects_v2(&bytes).unwrap();
    assert_eq!(parsed.header.fs_uuid, [1; 16]);
    assert_eq!(parsed.header.source_uuid, [2; 16]);
    assert_eq!(parsed.header.target_uuid, [3; 16]);
    assert!(parsed.header.boundary_records);
    assert!(parsed.header.dirty_witness);
    assert_eq!(parsed.manifest.ref_adds.len(), 1);
    assert_eq!(parsed.target_objects.get(&300).unwrap().uid, 1000);
    assert_eq!(
        parsed.target_security_xattrs[&300].get(b"security.test").unwrap().as_slice(),
        b"value"
    );
    assert!(parsed.boundary_adds.is_empty());

    let mut corrupt = bytes.clone();
    corrupt[V2_HEADER_SIZE + V2_OBJECT_RECORD_SIZE - 1] ^= 1;
    assert!(parse_changed_objects_v2(&corrupt).is_err());

    let mut mandatory = bytes;
    let extension =
        mandatory.windows(4).position(|window| window == b"extn").unwrap() - RECORD_HEADER_SIZE;
    mandatory[extension + 2..extension + 4].copy_from_slice(&0_u16.to_le_bytes());
    assert!(parse_changed_objects_v2(&mandatory).is_err());
}

#[test]
fn parses_and_cancels_boundary_records() {
    let mut bytes = v2_fixture();
    bytes.truncate(bytes.len() - V2_COMPLETION_SIZE);
    for (kind, name) in [
        (RECORD_BOUNDARY_ADD, b"same".as_slice()),
        (RECORD_BOUNDARY_DELETE, b"same".as_slice()),
        (RECORD_BOUNDARY_ADD, b"nested".as_slice()),
    ] {
        push_ref(&mut bytes, kind, 256, 900, name);
    }
    complete(&mut bytes, 8);

    let parsed = parse_changed_objects_v2(&bytes).unwrap();
    assert_eq!(parsed.boundary_adds.len(), 1);
    assert_eq!(parsed.boundary_adds.iter().next().unwrap().name, b"nested");
    assert!(parsed.boundary_deletes.is_empty());
}

#[test]
fn parses_typed_manifest_and_cancels_packed_refs() {
    let mut bytes = header();
    push_ref(&mut bytes, RECORD_REF_ADD, 300, 256, b"same");
    push_ref(&mut bytes, RECORD_REF_DELETE, 300, 256, b"same");
    push_ref(&mut bytes, RECORD_REF_ADD, 300, 256, b"new");
    push_object(&mut bytes, 300, 7, 7, CHANGE_INODE | CHANGE_REF);
    push_object(&mut bytes, 301, 8, 0, CHANGE_INODE | CHANGE_DELETED);

    let manifest = parse_changed_objects(&bytes).unwrap();
    assert_eq!(manifest.objects.len(), 2);
    assert_eq!(manifest.raw_ref_adds, 2);
    assert_eq!(manifest.raw_ref_deletes, 1);
    assert_eq!(manifest.ref_adds.len(), 1);
    assert!(manifest.ref_deletes.is_empty());
    assert_eq!(manifest.ref_adds.iter().next().unwrap().name, b"new");
}

#[test]
fn accepts_inode_reuse_and_rejects_unknown_semantics() {
    let mut bytes = header();
    push_object(&mut bytes, 300, 7, 8, CHANGE_CREATED | CHANGE_DELETED | CHANGE_INODE);
    assert!(parse_changed_objects(&bytes)
        .unwrap()
        .objects
        .get(&300)
        .copied()
        .unwrap()
        .is_replaced());

    let mut bytes = header();
    push_object(&mut bytes, 300, 7, 8, 1 << 63);
    assert!(parse_changed_objects(&bytes).is_err());
}

#[test]
fn retains_non_utf8_names() {
    let mut bytes = header();
    push_ref(&mut bytes, RECORD_REF_ADD, 300, 256, &[0xff, b'x']);
    push_object(&mut bytes, 300, 0, 9, CHANGE_INODE | CHANGE_REF | CHANGE_CREATED);
    let manifest = parse_changed_objects(&bytes).unwrap();
    assert_eq!(manifest.ref_adds.iter().next().unwrap().name, [0xff, b'x']);
}

#[test]
fn permits_zero_generations_when_the_inode_item_was_equal() {
    let mut bytes = header();
    push_ref(&mut bytes, RECORD_REF_DELETE, 300, 256, b"old");
    push_ref(&mut bytes, RECORD_REF_ADD, 300, 256, b"new");
    push_object(&mut bytes, 300, 0, 0, CHANGE_REF);
    let manifest = parse_changed_objects(&bytes).unwrap();
    let change = manifest.objects.get(&300).unwrap();
    assert_eq!(change.old_generation, None);
    assert_eq!(change.new_generation, None);
}

fn refusal(bytes: &[u8]) -> String {
    parse_changed_objects(bytes).unwrap_err().message().to_owned()
}

#[test]
fn an_object_record_must_make_sense() {
    for (ino, old, new, mask, text) in [
        (300, 7, 8, CHANGE_CREATED | CHANGE_INODE, "created object has invalid generations"),
        (300, 7, 8, CHANGE_DELETED | CHANGE_INODE, "deleted object has invalid generations"),
        (
            300,
            7,
            7,
            CHANGE_CREATED | CHANGE_DELETED | CHANGE_INODE,
            "replaced object has invalid generations",
        ),
        (300, 7, 0, CHANGE_REF, "changed object has invalid generations"),
        (300, 0, 0, CHANGE_INODE, "inode-item change has no generations"),
        (300, 0, 8, CHANGE_CREATED, "created or deleted object has no inode change"),
    ] {
        let mut bytes = header();
        push_object(&mut bytes, ino, old, new, mask);
        assert_eq!(refusal(&bytes), text);
    }
}

#[test]
fn a_reference_record_must_make_sense() {
    for (ino, parent, name, text) in [
        (0, 256, b"a".as_slice(), "changed-reference record has invalid inode"),
        (300, 0, b"a".as_slice(), "changed-reference record has invalid inode"),
        (300, 256, b"".as_slice(), "changed-reference record has invalid length 24"),
        (300, 256, b"a/b".as_slice(), "changed-reference record has invalid name"),
        (300, 256, b"a\0b".as_slice(), "changed-reference record has invalid name"),
    ] {
        let mut bytes = header();
        push_ref(&mut bytes, RECORD_REF_ADD, ino, parent, name);
        assert_eq!(refusal(&bytes), text);
    }
}

#[test]
fn a_truncated_stream_is_refused() {
    let mut bytes = header();
    push_object(&mut bytes, 300, 7, 7, CHANGE_INODE);
    for length in 0..bytes.len() {
        assert_eq!(parse_changed_objects(&bytes[..length]).is_ok(), length == HEADER_SIZE);
    }
    let whole = v2_fixture();
    for length in 0..whole.len() {
        assert!(parse_changed_objects_v2(&whole[..length]).is_err());
    }
}

#[test]
fn every_bit_of_a_second_format_stream_is_protected() {
    let whole = v2_fixture();
    for at in 0..whole.len() {
        let mut bytes = whole.clone();
        bytes[at] ^= 0x10;
        assert!(parse_changed_objects_v2(&bytes).is_err());
    }
}

#[test]
fn the_checksum_has_the_published_check_value() {
    assert_eq!(crc32c(b"123456789"), 0xe306_9283);
    assert_eq!(crc32c(b""), 0);
    assert_eq!(crc32c(&[0; 32]), 0x8a91_36aa);
}

#[test]
fn fields_are_read_where_they_are_whole() {
    let bytes: Vec<u8> = (1..=20).collect();
    assert_eq!(read_u16(&bytes, 18).unwrap(), 0x1413);
    assert!(read_u16(&bytes, 19).is_err());
    assert_eq!(read_u32(&bytes, 0).unwrap(), 0x0403_0201);
    assert!(read_u32(&bytes, usize::MAX).is_err());
    assert_eq!(read_u64(&bytes, 12).unwrap(), 0x1413_1211_100f_0e0d);
    assert!(read_u64(&bytes, 13).is_err());
    assert_eq!(fixed_16(&bytes, 4).unwrap()[..], bytes[4..]);
    assert_eq!(fixed_16(&bytes, 5).unwrap_err().message(), "truncated 16-byte field");
}

#[test]
fn a_stream_with_more_behind_it_is_refused() {
    let mut bytes = v2_fixture();
    assert!(parse_changed_objects_v2(&bytes).is_ok());
    bytes.push(0);
    assert!(parse_changed_objects_v2(&bytes).is_err());
    bytes.pop();
    bytes.extend_from_slice(&v2_fixture());
    assert!(parse_changed_objects_v2(&bytes).is_err());
}

#[test]
fn an_unknown_optional_record_changes_nothing() {
    let with = parse_changed_objects_v2(&v2_fixture()).unwrap();
    let mut bytes = v2_fixture();
    bytes.truncate(bytes.len() - V2_COMPLETION_SIZE - RECORD_HEADER_SIZE - 4);
    complete(&mut bytes, 4);
    let without = parse_changed_objects_v2(&bytes).unwrap();
    assert_eq!(with, without);
}

#[test]
fn the_order_of_records_does_not_matter() {
    let mut bytes = header();
    push_object(&mut bytes, 300, 7, 7, CHANGE_INODE | CHANGE_REF);
    push_ref(&mut bytes, RECORD_REF_ADD, 300, 256, b"new");
    push_ref(&mut bytes, RECORD_REF_DELETE, 300, 256, b"old");
    push_object(&mut bytes, 301, 8, 0, CHANGE_INODE | CHANGE_DELETED);
    let first = parse_changed_objects(&bytes).unwrap();
    let mut bytes = header();
    push_object(&mut bytes, 301, 8, 0, CHANGE_INODE | CHANGE_DELETED);
    push_ref(&mut bytes, RECORD_REF_DELETE, 300, 256, b"old");
    push_object(&mut bytes, 300, 7, 7, CHANGE_INODE | CHANGE_REF);
    push_ref(&mut bytes, RECORD_REF_ADD, 300, 256, b"new");
    let second = parse_changed_objects(&bytes).unwrap();
    assert_eq!(first, second);
    assert_eq!(first.canonical_hash(), second.canonical_hash());
}

#[test]
fn one_changed_byte_changes_the_check_value() {
    let bytes: Vec<u8> = (0..40).collect();
    for at in 0..bytes.len() {
        for change in 1..=255 {
            let mut other = bytes.clone();
            other[at] ^= change;
            assert_ne!(crc32c(&bytes), crc32c(&other));
        }
    }
}
