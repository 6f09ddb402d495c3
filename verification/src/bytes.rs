//! Fixed-width integers inside byte strings.

use vstd::prelude::*;

verus! {

/// The little-endian 16-bit integer at `at`.
pub open spec fn le_u16(bytes: Seq<u8>, at: int) -> u16 {
    (bytes[at] as u16) | ((bytes[at + 1] as u16) << 8)
}

/// The little-endian 32-bit integer at `at`.
pub open spec fn le_u32(bytes: Seq<u8>, at: int) -> u32 {
    (bytes[at] as u32) | ((bytes[at + 1] as u32) << 8) | ((bytes[at + 2] as u32) << 16) | ((
    bytes[at + 3] as u32) << 24)
}

/// The little-endian 64-bit integer at `at`.
pub open spec fn le_u64(bytes: Seq<u8>, at: int) -> u64 {
    (bytes[at] as u64) | ((bytes[at + 1] as u64) << 8) | ((bytes[at + 2] as u64) << 16) | ((
    bytes[at + 3] as u64) << 24) | ((bytes[at + 4] as u64) << 32) | ((bytes[at + 5] as u64) << 40)
        | ((bytes[at + 6] as u64) << 48) | ((bytes[at + 7] as u64) << 56)
}

/// The eight bytes of `value`, least significant first.
pub open spec fn le_bytes(value: u64) -> Seq<u8> {
    seq![
        (value & 0xff) as u8,
        ((value >> 8) & 0xff) as u8,
        ((value >> 16) & 0xff) as u8,
        ((value >> 24) & 0xff) as u8,
        ((value >> 32) & 0xff) as u8,
        ((value >> 40) & 0xff) as u8,
        ((value >> 48) & 0xff) as u8,
        ((value >> 56) & 0xff) as u8,
    ]
}

/// The eight bytes of `value`, most significant first.
pub open spec fn be_bytes(value: u64) -> Seq<u8> {
    seq![
        ((value >> 56) & 0xff) as u8,
        ((value >> 48) & 0xff) as u8,
        ((value >> 40) & 0xff) as u8,
        ((value >> 32) & 0xff) as u8,
        ((value >> 24) & 0xff) as u8,
        ((value >> 16) & 0xff) as u8,
        ((value >> 8) & 0xff) as u8,
        (value & 0xff) as u8,
    ]
}

/// What was written as eight little-endian bytes is read back unchanged.
pub proof fn law_le_round_trip(value: u64)
    ensures
        le_bytes(value).len() == 8,
        le_u64(le_bytes(value), 0) == value,
{
    assert((((value & 0xff) as u8) as u64) | (((((value >> 8) & 0xff) as u8) as u64) << 8)
        | (((((value >> 16) & 0xff) as u8) as u64) << 16)
        | (((((value >> 24) & 0xff) as u8) as u64) << 24)
        | (((((value >> 32) & 0xff) as u8) as u64) << 32)
        | (((((value >> 40) & 0xff) as u8) as u64) << 40)
        | (((((value >> 48) & 0xff) as u8) as u64) << 48)
        | (((((value >> 56) & 0xff) as u8) as u64) << 56) == value) by (bit_vector);
}

/// Reads the little-endian 16-bit integer at `at`.
pub fn get_le_u16(bytes: &[u8], at: usize) -> (value: u16)
    requires
        at + 2 <= bytes@.len(),
    ensures
        value == le_u16(bytes@, at as int),
{
    (bytes[at] as u16) | ((bytes[at + 1] as u16) << 8)
}

/// Reads the little-endian 32-bit integer at `at`.
pub fn get_le_u32(bytes: &[u8], at: usize) -> (value: u32)
    requires
        at + 4 <= bytes@.len(),
    ensures
        value == le_u32(bytes@, at as int),
{
    (bytes[at] as u32) | ((bytes[at + 1] as u32) << 8) | ((bytes[at + 2] as u32) << 16) | ((bytes[at
        + 3] as u32) << 24)
}

/// Reads the little-endian 64-bit integer at `at`.
pub fn get_le_u64(bytes: &[u8], at: usize) -> (value: u64)
    requires
        at + 8 <= bytes@.len(),
    ensures
        value == le_u64(bytes@, at as int),
{
    (bytes[at] as u64) | ((bytes[at + 1] as u64) << 8) | ((bytes[at + 2] as u64) << 16) | ((bytes[at
        + 3] as u64) << 24) | ((bytes[at + 4] as u64) << 32) | ((bytes[at + 5] as u64) << 40) | ((
    bytes[at + 6] as u64) << 48) | ((bytes[at + 7] as u64) << 56)
}

/// Appends the eight bytes of `value`, least significant first.
pub fn push_le_u64(out: &mut Vec<u8>, value: u64)
    ensures
        final(out)@ == old(out)@ + le_bytes(value),
{
    out.push((value & 0xff) as u8);
    out.push(((value >> 8) & 0xff) as u8);
    out.push(((value >> 16) & 0xff) as u8);
    out.push(((value >> 24) & 0xff) as u8);
    out.push(((value >> 32) & 0xff) as u8);
    out.push(((value >> 40) & 0xff) as u8);
    out.push(((value >> 48) & 0xff) as u8);
    out.push(((value >> 56) & 0xff) as u8);
    assert(out@ =~= old(out)@ + le_bytes(value));
}

/// Appends the eight bytes of `value`, most significant first.
pub fn push_be_u64(out: &mut Vec<u8>, value: u64)
    ensures
        final(out)@ == old(out)@ + be_bytes(value),
{
    out.push(((value >> 56) & 0xff) as u8);
    out.push(((value >> 48) & 0xff) as u8);
    out.push(((value >> 40) & 0xff) as u8);
    out.push(((value >> 32) & 0xff) as u8);
    out.push(((value >> 24) & 0xff) as u8);
    out.push(((value >> 16) & 0xff) as u8);
    out.push(((value >> 8) & 0xff) as u8);
    out.push((value & 0xff) as u8);
    assert(out@ =~= old(out)@ + be_bytes(value));
}

/// Appends a byte string.
pub fn push_bytes(out: &mut Vec<u8>, bytes: &[u8])
    ensures
        final(out)@ == old(out)@ + bytes@,
{
    let mut at: usize = 0;
    while at < bytes.len()
        invariant
            at <= bytes.len(),
            out@ == old(out)@ + bytes@.subrange(0, at as int),
        decreases bytes.len() - at,
    {
        out.push(bytes[at]);
        at += 1;
        assert(out@ =~= old(out)@ + bytes@.subrange(0, at as int));
    }
    assert(bytes@.subrange(0, at as int) =~= bytes@);
}

/// The sixteen bytes at `at`.
pub fn get_array_16(bytes: &[u8], at: usize) -> (value: [u8; 16])
    requires
        at + 16 <= bytes@.len(),
    ensures
        value@ == bytes@.subrange(at as int, at + 16),
{
    let mut value: [u8; 16] = [0u8; 16];
    let mut i: usize = 0;
    while i < 16
        invariant
            i <= 16,
            at + 16 <= bytes.len(),
            forall|j: int| 0 <= j < i ==> value@[j] == bytes@[at + j],
        decreases 16 - i,
    {
        value[i] = bytes[at + i];
        i += 1;
    }
    assert(value@ =~= bytes@.subrange(at as int, at + 16));
    value
}

/// The bytes from `from` up to `to`.
pub fn get_range(bytes: &[u8], from: usize, to: usize) -> (value: Vec<u8>)
    requires
        from <= to <= bytes@.len(),
    ensures
        value@ == bytes@.subrange(from as int, to as int),
{
    let mut value: Vec<u8> = Vec::with_capacity(to - from);
    let mut at: usize = from;
    while at < to
        invariant
            from <= at <= to <= bytes@.len(),
            value@ == bytes@.subrange(from as int, at as int),
        decreases to - at,
    {
        value.push(bytes[at]);
        at += 1;
        assert(value@ =~= bytes@.subrange(from as int, at as int));
    }
    value
}

/// Whether `byte` occurs in `bytes`.
pub fn has_byte(bytes: &[u8], byte: u8) -> (found: bool)
    ensures
        found == bytes@.contains(byte),
{
    let mut at: usize = 0;
    while at < bytes.len()
        invariant
            at <= bytes.len(),
            forall|i: int| 0 <= i < at ==> bytes@[i] != byte,
        decreases bytes.len() - at,
    {
        if bytes[at] == byte {
            return true;
        }
        at += 1;
    }
    false
}

} // verus!
