//! The integrity digest of the record formats: CRC-32.
//!
//! The digest is the CRC-32 of IEEE 802.3, as used by zip and Ethernet: the
//! bits of each byte enter least significant first, the generator polynomial
//! in that bit order is `0xEDB88320`, the register starts with all bits set,
//! and the result is the complement of the register. [`crc32`] defines it one
//! bit at a time. The digest detects corruption; it authenticates nothing.

use vstd::prelude::*;

verus! {

/// The generator polynomial of CRC-32, least significant bit first.
pub const CRC32_POLY: u32 = 0xEDB8_8320;

/// One step of the shift register: the lowest bit leaves, and where it was
/// set the polynomial is folded in.
pub open spec fn crc_shift(reg: u32) -> u32 {
    if reg & 1 == 1 {
        (reg >> 1) ^ CRC32_POLY
    } else {
        reg >> 1
    }
}

/// The register after one more byte: the byte is folded into the low bits
/// and the register is shifted eight times.
pub open spec fn crc_feed(reg: u32, byte: u8) -> u32 {
    crc_shift(
        crc_shift(
            crc_shift(
                crc_shift(crc_shift(crc_shift(crc_shift(crc_shift(reg ^ (byte as u32)))))),
            ),
        ),
    )
}

/// Entry `index` of the byte table of CRC-32: what eight shifts make of a
/// register that holds `index` alone.
pub open spec fn crc_table(index: u8) -> u32 {
    crc_feed(0, index)
}

/// The register after all of `bytes`, starting from all bits set.
pub open spec fn crc_register(bytes: Seq<u8>) -> u32
    decreases bytes.len(),
{
    if bytes.len() == 0 {
        0xFFFF_FFFF
    } else {
        crc_feed(crc_register(bytes.drop_last()), bytes.last())
    }
}

/// The CRC-32 of `bytes`.
pub open spec fn crc32(bytes: Seq<u8>) -> u32 {
    crc_register(bytes) ^ 0xFFFF_FFFF
}

/// The digest of `payload`.
///
/// Trusted: the body calls `crc32fast::hash`, which that crate documents as
/// the CRC-32 (IEEE) of the slice, whichever of its code paths the processor
/// selects. Its table-driven path starts from the complement of zero, takes
/// each byte through a table lookup of the form that
/// [`lemma_crc_feed_by_table`] shows to be [`crc_feed`], and returns the
/// complement of the register. The contract claims that the result is the
/// number [`crc32`] defines. Nothing here proves that; [`crc32_bitwise`] is
/// there so that it can be tested.
#[verifier::external_body]
pub(crate) fn crc_checksum(payload: &[u8]) -> (sum: u32)
    ensures
        sum == crc32(payload@),
{
    crc32fast::hash(payload)
}

fn shift(reg: u32) -> (out: u32)
    ensures
        out == crc_shift(reg),
{
    if reg & 1 == 1 {
        (reg >> 1) ^ CRC32_POLY
    } else {
        reg >> 1
    }
}

/// The digest of `payload`, computed one bit at a time.
///
/// This is [`crc32`] made executable: slow, and verified down to the
/// definition. It is the yardstick for the fast digest that the records use.
pub fn crc32_bitwise(payload: &[u8]) -> (sum: u32)
    ensures
        sum == crc32(payload@),
{
    let mut reg: u32 = 0xFFFF_FFFF;
    let mut i: usize = 0;
    while i < payload.len()
        invariant
            i <= payload@.len(),
            reg == crc_register(payload@.take(i as int)),
        decreases payload@.len() - i,
    {
        let folded: u32 = reg ^ (payload[i] as u32);
        let next: u32 = shift(shift(shift(shift(shift(shift(shift(shift(folded))))))));
        proof {
            let seen = payload@.take(i as int + 1);
            assert(seen.drop_last() =~= payload@.take(i as int));
        }
        reg = next;
        i = i + 1;
    }
    assert(payload@.take(i as int) =~= payload@);
    reg ^ 0xFFFF_FFFF
}

/// Feeding a byte is one table lookup: the low byte of the register, folded
/// with the input byte, selects the table entry that is folded into the
/// rest of the register. The table starts `0`, `0x77073096` and ends
/// `0x2d02ef8d`.
pub proof fn lemma_crc_feed_by_table(reg: u32, byte: u8)
    ensures
        crc_feed(reg, byte) == crc_table((reg as u8) ^ byte) ^ (reg >> 8),
        crc_table(0) == 0,
        crc_table(1) == 0x7707_3096,
        crc_table(255) == 0x2d02_ef8d,
{
    assert(crc_feed(reg, byte) == crc_feed(0, (reg as u8) ^ byte) ^ (reg >> 8)) by (bit_vector);
    assert(crc_feed(0, 0) == 0) by (bit_vector);
    assert(crc_feed(0, 1) == 0x7707_3096) by (bit_vector);
    assert(crc_feed(0, 255) == 0x2d02_ef8d) by (bit_vector);
}

/// Two registers that shift to the same register are the same.
proof fn lemma_crc_shift_injective(a: u32, b: u32)
    requires
        crc_shift(a) == crc_shift(b),
    ensures
        a == b,
{
    assert((if a & 1 == 1 {
        (a >> 1) ^ 0xEDB8_8320u32
    } else {
        a >> 1
    }) == (if b & 1 == 1 {
        (b >> 1) ^ 0xEDB8_8320u32
    } else {
        b >> 1
    }) ==> a == b) by (bit_vector);
}

/// Feeding a byte keeps two different inputs apart: the register after the
/// byte determines the register before it folded with the byte.
proof fn lemma_crc_feed_injective(r1: u32, x: u8, r2: u32, y: u8)
    requires
        crc_feed(r1, x) == crc_feed(r2, y),
    ensures
        r1 ^ (x as u32) == r2 ^ (y as u32),
{
    let a0 = r1 ^ (x as u32);
    let b0 = r2 ^ (y as u32);
    let a1 = crc_shift(a0);
    let b1 = crc_shift(b0);
    let a2 = crc_shift(a1);
    let b2 = crc_shift(b1);
    let a3 = crc_shift(a2);
    let b3 = crc_shift(b2);
    let a4 = crc_shift(a3);
    let b4 = crc_shift(b3);
    let a5 = crc_shift(a4);
    let b5 = crc_shift(b4);
    let a6 = crc_shift(a5);
    let b6 = crc_shift(b5);
    let a7 = crc_shift(a6);
    let b7 = crc_shift(b6);
    lemma_crc_shift_injective(a7, b7);
    lemma_crc_shift_injective(a6, b6);
    lemma_crc_shift_injective(a5, b5);
    lemma_crc_shift_injective(a4, b4);
    lemma_crc_shift_injective(a3, b3);
    lemma_crc_shift_injective(a2, b2);
    lemma_crc_shift_injective(a1, b1);
    lemma_crc_shift_injective(a0, b0);
}

/// Two byte strings of one length that differ in exactly one byte leave the
/// register in different states.
proof fn lemma_crc_register_detects_one_byte(a: Seq<u8>, b: Seq<u8>, at: int)
    requires
        a.len() == b.len(),
        0 <= at < a.len(),
        a[at] != b[at],
        forall|j: int| 0 <= j < a.len() && j != at ==> a[j] == b[j],
    ensures
        crc_register(a) != crc_register(b),
    decreases a.len(),
{
    let ra = crc_register(a.drop_last());
    let rb = crc_register(b.drop_last());
    let (x, y) = (a.last(), b.last());
    if at == a.len() - 1 {
        assert(a.drop_last() =~= b.drop_last());
        assert(x != y ==> ra ^ (x as u32) != ra ^ (y as u32)) by (bit_vector);
    } else {
        lemma_crc_register_detects_one_byte(a.drop_last(), b.drop_last(), at);
        assert(ra != rb ==> ra ^ (x as u32) != rb ^ (x as u32)) by (bit_vector);
    }
    if crc_feed(ra, x) == crc_feed(rb, y) {
        lemma_crc_feed_injective(ra, x, rb, y);
    }
}

/// CRC-32 detects every change that is confined to one byte: two byte
/// strings of one length that differ in exactly one position have different
/// digests.
pub proof fn lemma_crc32_detects_one_byte(a: Seq<u8>, b: Seq<u8>, at: int)
    requires
        a.len() == b.len(),
        0 <= at < a.len(),
        a[at] != b[at],
        forall|j: int| 0 <= j < a.len() && j != at ==> a[j] == b[j],
    ensures
        crc32(a) != crc32(b),
{
    lemma_crc_register_detects_one_byte(a, b, at);
    let (ra, rb) = (crc_register(a), crc_register(b));
    assert(ra != rb ==> ra ^ 0xFFFF_FFFFu32 != rb ^ 0xFFFF_FFFFu32) by (bit_vector);
}

} // verus!
