//! The Castagnoli cyclic redundancy check.

use vstd::prelude::*;

verus! {

/// The reflected Castagnoli polynomial.
pub const POLYNOMIAL: u32 = 0x82f6_3b78;

/// One bit of polynomial division.
pub open spec fn crc_bit(value: u32) -> u32 {
    if value & 1 == 1 {
        (value >> 1) ^ POLYNOMIAL
    } else {
        value >> 1
    }
}

/// Eight bits of polynomial division.
pub open spec fn crc_byte(value: u32) -> u32 {
    crc_bit(crc_bit(crc_bit(crc_bit(crc_bit(crc_bit(crc_bit(crc_bit(value))))))))
}

/// The register after `bytes`, starting from all ones.
pub open spec fn crc_register(bytes: Seq<u8>) -> u32
    decreases bytes.len(),
{
    if bytes.len() == 0 {
        0xffff_ffff
    } else {
        crc_byte(crc_register(bytes.drop_last()) ^ (bytes.last() as u32))
    }
}

/// The CRC-32C of `bytes`.
pub open spec fn crc32c_of(bytes: Seq<u8>) -> u32 {
    !crc_register(bytes)
}

proof fn lemma_table_step(register: u32, byte: u32)
    requires
        byte < 256,
    ensures
        crc_byte(register ^ byte) == crc_byte((register ^ byte) & 0xff) ^ (register >> 8),
{
    let x = register ^ byte;
    assert(crc_byte(x) == crc_byte(x & 0xff) ^ (x >> 8)) by (bit_vector);
    assert((register ^ byte) >> 8 == register >> 8) by (bit_vector)
        requires
            byte < 256,
    ;
}

fn table_entry(index: u32) -> (entry: u32)
    ensures
        entry == crc_byte(index),
{
    let mut value: u32 = index;
    let mut bit: u32 = 0;
    let ghost steps = seq![
        index,
        crc_bit(index),
        crc_bit(crc_bit(index)),
        crc_bit(crc_bit(crc_bit(index))),
        crc_bit(crc_bit(crc_bit(crc_bit(index)))),
        crc_bit(crc_bit(crc_bit(crc_bit(crc_bit(index))))),
        crc_bit(crc_bit(crc_bit(crc_bit(crc_bit(crc_bit(index)))))),
        crc_bit(crc_bit(crc_bit(crc_bit(crc_bit(crc_bit(crc_bit(index))))))),
        crc_byte(index),
    ];
    while bit < 8
        invariant
            bit <= 8,
            steps.len() == 9,
            forall|i: int| 0 <= i < 8 ==> steps[i + 1] == crc_bit(#[trigger] steps[i]),
            value == steps[bit as int],
        decreases 8 - bit,
    {
        if value & 1 == 1 {
            value = (value >> 1) ^ POLYNOMIAL;
        } else {
            value = value >> 1;
        }
        bit += 1;
    }
    value
}

/// Computes the CRC-32C of `bytes` with a table of the 256 byte remainders.
pub fn crc32c(bytes: &[u8]) -> (crc: u32)
    ensures
        crc == crc32c_of(bytes@),
{
    let mut table: [u32; 256] = [0u32; 256];
    let mut index: usize = 0;
    while index < 256
        invariant
            index <= 256,
            forall|i: int| 0 <= i < index ==> table@[i] == crc_byte(i as u32),
        decreases 256 - index,
    {
        table[index] = table_entry(index as u32);
        index += 1;
    }
    let mut register: u32 = 0xffff_ffff;
    let mut at: usize = 0;
    while at < bytes.len()
        invariant
            at <= bytes.len(),
            forall|i: int| 0 <= i < 256 ==> table@[i] == crc_byte(i as u32),
            register == crc_register(bytes@.subrange(0, at as int)),
        decreases bytes.len() - at,
    {
        let byte: u32 = bytes[at] as u32;
        let low: u32 = (register ^ byte) & 0xff;
        assert((register ^ byte) & 0xff < 256) by (bit_vector);
        proof {
            lemma_table_step(register, byte);
            let taken = bytes@.subrange(0, at + 1);
            assert(taken.drop_last() =~= bytes@.subrange(0, at as int));
            assert(taken.last() == bytes@[at as int]);
        }
        register = table[low as usize] ^ (register >> 8);
        at += 1;
    }
    assert(bytes@.subrange(0, at as int) =~= bytes@);
    !register
}

proof fn lemma_bit_injective(left: u32, right: u32)
    requires
        crc_bit(left) == crc_bit(right),
    ensures
        left == right,
{
    assert(left == right) by (bit_vector)
        requires
            crc_bit(left) == crc_bit(right),
    ;
}

proof fn lemma_byte_injective(left: u32, right: u32)
    requires
        crc_byte(left) == crc_byte(right),
    ensures
        left == right,
{
    let (a1, b1) = (crc_bit(left), crc_bit(right));
    let (a2, b2) = (crc_bit(a1), crc_bit(b1));
    let (a3, b3) = (crc_bit(a2), crc_bit(b2));
    let (a4, b4) = (crc_bit(a3), crc_bit(b3));
    let (a5, b5) = (crc_bit(a4), crc_bit(b4));
    let (a6, b6) = (crc_bit(a5), crc_bit(b5));
    let (a7, b7) = (crc_bit(a6), crc_bit(b6));
    lemma_bit_injective(a7, b7);
    lemma_bit_injective(a6, b6);
    lemma_bit_injective(a5, b5);
    lemma_bit_injective(a4, b4);
    lemma_bit_injective(a3, b3);
    lemma_bit_injective(a2, b2);
    lemma_bit_injective(a1, b1);
    lemma_bit_injective(left, right);
}

proof fn lemma_register_differs(left: Seq<u8>, right: Seq<u8>, at: int)
    requires
        left.len() == right.len(),
        0 <= at < left.len(),
        left[at] != right[at],
        forall|i: int| 0 <= i < left.len() && i != at ==> left[i] == right[i],
    ensures
        crc_register(left) != crc_register(right),
    decreases left.len(),
{
    let (a, b) = (crc_register(left.drop_last()), crc_register(right.drop_last()));
    let (x, y) = (left.last() as u32, right.last() as u32);
    if at == left.len() - 1 {
        assert(left.drop_last() =~= right.drop_last());
        assert(a ^ x != a ^ y) by (bit_vector)
            requires
                x != y,
        ;
    } else {
        lemma_register_differs(left.drop_last(), right.drop_last(), at);
        assert(a ^ x != b ^ x) by (bit_vector)
            requires
                a != b,
        ;
    }
    if crc_byte(a ^ x) == crc_byte(b ^ y) {
        lemma_byte_injective(a ^ x, b ^ y);
    }
}

/// A change to one byte alone, whichever, changes the check value.
pub proof fn law_one_byte_is_detected(left: Seq<u8>, right: Seq<u8>, at: int)
    requires
        left.len() == right.len(),
        0 <= at < left.len(),
        left[at] != right[at],
        forall|i: int| 0 <= i < left.len() && i != at ==> left[i] == right[i],
    ensures
        crc32c_of(left) != crc32c_of(right),
{
    lemma_register_differs(left, right, at);
    let (a, b) = (crc_register(left), crc_register(right));
    assert(!a != !b) by (bit_vector)
        requires
            a != b,
    ;
}

} // verus!
