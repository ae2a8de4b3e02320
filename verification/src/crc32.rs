//! CRC-32 (ISO-HDLC): reflected polynomial `0xEDB88320`, seed `0xFFFFFFFF`,
//! final complement.
//!
//! The checksum is specified bit by bit over a shift register, and computed
//! byte by byte through a 256-entry lookup table.

use vstd::prelude::*;

verus! {

/// The generator polynomial, bit-reflected.
pub const POLYNOMIAL: u32 = 0xedb8_8320;

/// The value of the shift register before the first byte.
pub const SEED: u32 = 0xffff_ffff;

/// The shift register after one bit has been shifted out of `reg`.
pub open spec fn spec_shift(reg: u32) -> u32 {
    if reg & 1 == 1 {
        POLYNOMIAL ^ (reg >> 1)
    } else {
        reg >> 1
    }
}

/// The shift register after eight bits have been shifted out of `reg`.
pub open spec fn spec_table_fn(reg: u32) -> u32 {
    spec_shift(
        spec_shift(
            spec_shift(spec_shift(spec_shift(spec_shift(spec_shift(spec_shift(reg)))))),
        ),
    )
}

/// The shift register after `byte` has been fed into `reg`.
pub open spec fn spec_feed(reg: u32, byte: u8) -> u32 {
    spec_table_fn(reg ^ (byte as u32))
}

/// The shift register after all of `bytes` have been fed into the seed, first
/// byte first.
pub open spec fn spec_register(bytes: Seq<u8>) -> u32
    decreases bytes.len(),
{
    if bytes.len() == 0 {
        SEED
    } else {
        spec_feed(spec_register(bytes.drop_last()), bytes.last())
    }
}

/// The CRC-32 of `bytes`.
pub open spec fn spec_crc32(bytes: Seq<u8>) -> u32 {
    !spec_register(bytes)
}

/// Entry `i` of the lookup table: the register that is left of `i` after one
/// byte's worth of shifts.
pub fn table_fn(i: u32) -> (out: u32)
    ensures
        out == spec_table_fn(i),
{
    let mut out: u32 = i;
    out = if out & 1 == 1 { POLYNOMIAL ^ (out >> 1) } else { out >> 1 };
    out = if out & 1 == 1 { POLYNOMIAL ^ (out >> 1) } else { out >> 1 };
    out = if out & 1 == 1 { POLYNOMIAL ^ (out >> 1) } else { out >> 1 };
    out = if out & 1 == 1 { POLYNOMIAL ^ (out >> 1) } else { out >> 1 };
    out = if out & 1 == 1 { POLYNOMIAL ^ (out >> 1) } else { out >> 1 };
    out = if out & 1 == 1 { POLYNOMIAL ^ (out >> 1) } else { out >> 1 };
    out = if out & 1 == 1 { POLYNOMIAL ^ (out >> 1) } else { out >> 1 };
    out = if out & 1 == 1 { POLYNOMIAL ^ (out >> 1) } else { out >> 1 };
    out
}

/// The lookup table: entry `i` is `table_fn(i)`.
pub fn get_table() -> (table: [u32; 256])
    ensures
        forall|i: int| 0 <= i < 256 ==> #[trigger] table[i] == spec_table_fn(i as u32),
{
    let mut table: [u32; 256] = [0u32; 256];
    let mut i: usize = 0;
    while i < 256
        invariant
            i <= 256,
            forall|j: int| 0 <= j < i ==> #[trigger] table[j] == spec_table_fn(j as u32),
        decreases 256 - i,
    {
        table[i] = table_fn(i as u32);
        i += 1;
    }
    table
}

/// Feeding a byte through the lookup table gives the same register as feeding
/// it bit by bit.
pub proof fn lemma_feed_by_table(reg: u32, byte: u8)
    ensures
        ((reg & 0xff) ^ (byte as u32)) < 256,
        spec_feed(reg, byte) == (reg >> 8) ^ spec_table_fn((reg & 0xff) ^ (byte as u32)),
{
    assert(((reg & 0xff) ^ (byte as u32)) < 256) by (bit_vector);
    assert(spec_table_fn(reg ^ (byte as u32)) == (reg >> 8) ^ spec_table_fn(
        (reg & 0xff) ^ (byte as u32),
    )) by (bit_vector);
}

/// The CRC-32 of `buf`.
pub fn crc32(buf: &[u8]) -> (out: u32)
    ensures
        out == spec_crc32(buf@),
{
    let table = get_table();
    let mut out: u32 = !0u32;
    let mut i: usize = 0;
    assert(out == SEED) by (bit_vector)
        requires
            out == !0u32,
    ;
    assert(buf@.subrange(0, 0) =~= Seq::<u8>::empty());
    while i < buf.len()
        invariant
            i <= buf.len(),
            out == spec_register(buf@.subrange(0, i as int)),
            forall|j: int| 0 <= j < 256 ==> #[trigger] table[j] == spec_table_fn(j as u32),
        decreases buf.len() - i,
    {
        let byte: u8 = buf[i];
        proof {
            lemma_feed_by_table(out, byte);
            let next = buf@.subrange(0, i as int + 1);
            assert(next.drop_last() =~= buf@.subrange(0, i as int));
            assert(next.last() == byte);
        }
        out = (out >> 8) ^ table[((out & 0xff) ^ (byte as u32)) as usize];
        i += 1;
    }
    assert(buf@.subrange(0, i as int) =~= buf@);
    !out
}

/// The CRC-32 of no bytes is zero.
pub proof fn lemma_crc32_empty()
    ensures
        spec_crc32(Seq::<u8>::empty()) == 0,
{
    assert(!SEED == 0u32) by (bit_vector);
}

/// Eight shifts lose nothing: two registers that are left equal were equal.
pub proof fn lemma_table_fn_injective(a: u32, b: u32)
    requires
        spec_table_fn(a) == spec_table_fn(b),
    ensures
        a == b,
{
    assert(spec_table_fn(a) == spec_table_fn(b) ==> a == b) by (bit_vector);
}

/// Feeding different bytes into one register, or one byte into different
/// registers, leaves different registers.
pub proof fn lemma_feed_injective(reg1: u32, byte1: u8, reg2: u32, byte2: u8)
    requires
        spec_feed(reg1, byte1) == spec_feed(reg2, byte2),
    ensures
        reg1 == reg2 <==> byte1 == byte2,
{
    lemma_table_fn_injective(reg1 ^ (byte1 as u32), reg2 ^ (byte2 as u32));
    assert((reg1 ^ (byte1 as u32)) == (reg2 ^ (byte2 as u32)) ==> (reg1 == reg2 <==> byte1
        == byte2)) by (bit_vector);
}

/// Replacing one byte of a sequence by another value changes the register that
/// the sequence leaves.
pub proof fn lemma_register_detects_byte(bytes: Seq<u8>, at: int, value: u8)
    requires
        0 <= at < bytes.len(),
        value != bytes[at],
    ensures
        spec_register(bytes.update(at, value)) != spec_register(bytes),
    decreases bytes.len(),
{
    let changed = bytes.update(at, value);
    if at == bytes.len() - 1 {
        assert(changed.drop_last() =~= bytes.drop_last());
        if spec_register(changed) == spec_register(bytes) {
            lemma_feed_injective(
                spec_register(bytes.drop_last()),
                value,
                spec_register(bytes.drop_last()),
                bytes.last(),
            );
        }
    } else {
        assert(changed.drop_last() =~= bytes.drop_last().update(at, value));
        lemma_register_detects_byte(bytes.drop_last(), at, value);
        if spec_register(changed) == spec_register(bytes) {
            lemma_feed_injective(
                spec_register(changed.drop_last()),
                bytes.last(),
                spec_register(bytes.drop_last()),
                bytes.last(),
            );
        }
    }
}

/// Replacing one byte of a sequence by another value changes its CRC-32.
pub proof fn lemma_crc32_detects_byte(bytes: Seq<u8>, at: int, value: u8)
    requires
        0 <= at < bytes.len(),
        value != bytes[at],
    ensures
        spec_crc32(bytes.update(at, value)) != spec_crc32(bytes),
{
    lemma_register_detects_byte(bytes, at, value);
    let a = spec_register(bytes.update(at, value));
    let b = spec_register(bytes);
    assert(!a == !b ==> a == b) by (bit_vector);
}

} // verus!
