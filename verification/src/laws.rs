//! The laws of the two formats.
//!
//! Each law is a theorem about the models of [`crate::layout`], and so about
//! every record that the executable codecs write or read, since their
//! contracts are stated over the same models.

use crate::checksum::crc32;
use crate::checksum::lemma_crc32_detects_one_byte;
use crate::layout::DataRecord;
use crate::layout::HintRecord;
use crate::wire::lemma_i64_be_round_trip;
use crate::wire::lemma_i64_from_be_round_trip;
use crate::wire::lemma_u32_be_round_trip;
use crate::wire::lemma_u32_from_be_round_trip;
use crate::wire::lemma_u64_be_round_trip;
use crate::wire::lemma_u64_from_be_bit_cleared;
use crate::wire::lemma_u64_from_be_bit_set;
use crate::wire::lemma_u64_from_be_round_trip;
use crate::wire::u32_from_be;
use crate::wire::u64_from_be;
use vstd::prelude::*;

verus! {

/// `byte` with bit number `bit` inverted.
pub open spec fn flip_bit(byte: u8, bit: u8) -> u8 {
    byte ^ (1u8 << bit)
}

/// Two byte strings that agree on the eight bytes from `at` on hold the same
/// field there.
proof fn lemma_field_agrees(a: Seq<u8>, b: Seq<u8>, at: int)
    requires
        0 <= at,
        at + 8 <= a.len(),
        at + 8 <= b.len(),
        forall|i: int| at <= i < at + 8 ==> a[i] == b[i],
    ensures
        u64_from_be(a.skip(at)) == u64_from_be(b.skip(at)),
{
}

/// What a changed bit inside the two size fields of a header does to the
/// sizes it declares: their sum grows where the bit was zero and shrinks
/// where it was one.
proof fn lemma_size_bit_flip(good: Seq<u8>, at: int, bit: u8)
    requires
        good.len() >= 28,
        12 <= at < 28,
        bit < 8,
    ensures
        ({
            let bad = good.update(at, flip_bit(good[at], bit));
            if good[at] & (1u8 << bit) == 0 {
                DataRecord::body_len(bad) > DataRecord::body_len(good)
            } else {
                DataRecord::body_len(bad) < DataRecord::body_len(good)
            }
        }),
{
    let (hit, kept) = if at < 20 {
        (12int, 20int)
    } else {
        (20int, 12int)
    };
    lemma_field_agrees(good.update(at, flip_bit(good[at], bit)), good, kept);
    if good[at] & (1u8 << bit) == 0 {
        lemma_u64_from_be_bit_set(good.skip(hit), at - hit, bit);
    } else {
        lemma_u64_from_be_bit_cleared(good.skip(hit), at - hit, bit);
    }
}

/// The encoding of a data record is 28 bytes longer than key and value
/// together.
pub proof fn lemma_data_wire_len(rec: DataRecord)
    ensures
        rec.content().len() == 24 + rec.key.len() + rec.value.len(),
        rec.wire().len() == 28 + rec.key.len() + rec.value.len(),
{
}

/// Round trip of a data record: the encoding of a record, whatever bytes
/// follow it, is read back as the same level, key and value under the
/// checksum that the encoder computed; the read takes exactly the bytes of the
/// encoding, and the record that comes back passes the checksum test.
pub proof fn lemma_data_round_trip(rec: DataRecord, rest: Seq<u8>)
    requires
        rec.sized(),
    ensures
        DataRecord::parse(rec.wire() + rest) == Some((rec.sealed(), rec.wire().len())),
        rec.sealed().checksum_ok(),
{
    let bytes = rec.wire() + rest;
    let key_size = rec.key.len() as u64;
    let value_size = rec.value.len() as u64;
    lemma_u32_be_round_trip(crc32(rec.content()));
    lemma_i64_be_round_trip(rec.level);
    lemma_u64_be_round_trip(key_size);
    lemma_u64_be_round_trip(value_size);
    assert(bytes.subrange(28, 28 + key_size) =~= rec.key);
    assert(bytes.subrange(28 + key_size, 28 + key_size + value_size) =~= rec.value);
}

/// The header of an encoding declares the sizes of the record.
proof fn lemma_data_wire_body_len(rec: DataRecord)
    requires
        rec.sized(),
    ensures
        DataRecord::body_len(rec.wire()) == rec.key.len() + rec.value.len(),
{
    lemma_data_round_trip(rec, Seq::empty());
}

/// A data record that was cut short is never read: every proper prefix of an
/// encoding fails to decode.
pub proof fn lemma_data_truncated_fails(rec: DataRecord, len: int)
    requires
        rec.sized(),
        0 <= len < rec.wire().len(),
    ensures
        DataRecord::parse(rec.wire().take(len)) is None,
{
    if len >= 28 {
        lemma_data_wire_body_len(rec);
        lemma_field_agrees(rec.wire().take(len), rec.wire(), 12);
        lemma_field_agrees(rec.wire().take(len), rec.wire(), 20);
    }
}

/// What a decode hands out is what the bytes hold: the record read from the
/// front of `bytes` has a key and a value of the declared sizes and lies
/// within `bytes`; its content is the bytes that follow the stored checksum;
/// and where it passes the checksum test, it is encoded as the very bytes it
/// was read from.
pub proof fn lemma_data_parse_content(bytes: Seq<u8>)
    requires
        DataRecord::parse(bytes) is Some,
    ensures
        ({
            let (rec, used) = DataRecord::parse(bytes)->0;
            &&& rec.sized()
            &&& rec.key.len() == u64_from_be(bytes.skip(12))
            &&& rec.value.len() == u64_from_be(bytes.skip(20))
            &&& used == 28 + rec.key.len() + rec.value.len()
            &&& used <= bytes.len()
            &&& rec.crc == u32_from_be(bytes)
            &&& rec.content() == bytes.subrange(4, used as int)
            &&& rec.checksum_ok() ==> rec.wire() == bytes.take(used as int)
        }),
{
    lemma_u32_from_be_round_trip(bytes.subrange(0, 4));
    lemma_i64_from_be_round_trip(bytes.subrange(4, 12));
    lemma_u64_from_be_round_trip(bytes.subrange(12, 20));
    lemma_u64_from_be_round_trip(bytes.subrange(20, 28));
}

/// Corruption of one byte is detected: where one byte of an encoding,
/// outside the two size fields, is replaced by another value, the bytes,
/// whatever follows them, still decode to a record of the same extent, and
/// that record fails the checksum test.
pub proof fn lemma_data_byte_change_detected(rec: DataRecord, at: int, byte: u8, rest: Seq<u8>)
    requires
        rec.sized(),
        0 <= at < rec.wire().len(),
        !(12 <= at < 28),
        byte != rec.wire()[at],
    ensures
        DataRecord::parse(rec.wire().update(at, byte) + rest) matches Some((got, used)) && used
            == rec.wire().len() && !got.checksum_ok(),
{
    let good = rec.wire();
    let bad = good.update(at, byte) + rest;
    lemma_data_wire_body_len(rec);
    lemma_field_agrees(bad, good, 12);
    lemma_field_agrees(bad, good, 20);
    let (got, _) = DataRecord::parse(bad)->0;
    lemma_data_parse_content(bad);
    lemma_u32_be_round_trip(crc32(rec.content()));
    if at < 4 {
        assert(got.content() =~= rec.content());
        lemma_u32_from_be_round_trip(good.take(4));
        lemma_u32_from_be_round_trip(bad.take(4));
    } else {
        lemma_crc32_detects_one_byte(rec.content(), got.content(), at - 4);
    }
}

/// Corruption of one bit is detected: where one bit of an encoding is
/// inverted, outside the two size fields, the bytes, whatever follows them,
/// still decode to a record of the same extent, and that record fails the
/// checksum test.
pub proof fn lemma_data_bit_flip_detected(rec: DataRecord, at: int, bit: u8, rest: Seq<u8>)
    requires
        rec.sized(),
        0 <= at < rec.wire().len(),
        !(12 <= at < 28),
        bit < 8,
    ensures
        DataRecord::parse(rec.wire().update(at, flip_bit(rec.wire()[at], bit)) + rest) matches Some(
            (got, used),
        ) && used == rec.wire().len() && !got.checksum_ok(),
{
    let byte = rec.wire()[at];
    assert(bit < 8 ==> byte ^ (1u8 << bit) != byte) by (bit_vector);
    lemma_data_byte_change_detected(rec, at, flip_bit(byte, bit), rest);
}

/// A size that grew by corruption is detected by the decode itself: where a
/// zero bit inside one of the two size fields of an encoding becomes one, the
/// record declares more bytes than the encoding holds, and the decode fails.
pub proof fn lemma_data_size_bit_set_fails(rec: DataRecord, at: int, bit: u8)
    requires
        rec.sized(),
        12 <= at < 28,
        bit < 8,
        rec.wire()[at] & (1u8 << bit) == 0,
    ensures
        DataRecord::parse(rec.wire().update(at, flip_bit(rec.wire()[at], bit))) is None,
{
    lemma_data_wire_body_len(rec);
    lemma_size_bit_flip(rec.wire(), at, bit);
}

/// A size that shrank by corruption goes unnoticed by the decode, and the
/// checksum test catches it unless two digests collide: where a one bit
/// inside one of the two size fields of an encoding becomes zero, a shorter
/// record is read from the front of the bytes, and it passes the checksum test
/// exactly where the digest of its content equals the digest of the content
/// that was encoded.
pub proof fn lemma_data_size_bit_cleared(rec: DataRecord, at: int, bit: u8)
    requires
        rec.sized(),
        12 <= at < 28,
        bit < 8,
        rec.wire()[at] & (1u8 << bit) != 0,
    ensures
        DataRecord::parse(rec.wire().update(at, flip_bit(rec.wire()[at], bit))) matches Some(
            (got, used),
        ) && used < rec.wire().len() && (got.checksum_ok() <==> crc32(got.content()) == crc32(
            rec.content(),
        )),
{
    lemma_data_wire_body_len(rec);
    lemma_size_bit_flip(rec.wire(), at, bit);
    lemma_u32_be_round_trip(crc32(rec.content()));
}

/// The extent of a data record is known from its header: the first 28 bytes
/// declare how many bytes follow, and the bytes hold a record exactly where
/// they hold that many.
pub proof fn lemma_data_extent_from_header(bytes: Seq<u8>)
    requires
        bytes.len() >= 28,
    ensures
        DataRecord::body_len(bytes.take(28)) == DataRecord::body_len(bytes),
        DataRecord::parse(bytes) is Some <==> bytes.len() >= 28 + DataRecord::body_len(bytes),
        DataRecord::parse(bytes) matches Some((_, used)) ==> used == 28 + DataRecord::body_len(
            bytes,
        ),
{
    lemma_field_agrees(bytes.take(28), bytes, 12);
    lemma_field_agrees(bytes.take(28), bytes, 20);
}

/// The encoding of a hint record is 32 bytes longer than its key.
pub proof fn lemma_hint_wire_len(rec: HintRecord)
    ensures
        rec.wire().len() == 32 + rec.key.len(),
{
}

/// Round trip of a hint record: the encoding of a record, whatever bytes
/// follow it, is read back as the same record, and the read takes exactly the
/// bytes of the encoding. This holds of pointers and of tombstones alike.
pub proof fn lemma_hint_round_trip(rec: HintRecord, rest: Seq<u8>)
    requires
        rec.sized(),
    ensures
        HintRecord::parse(rec.wire() + rest) == Some((rec, rec.wire().len())),
{
    let bytes = rec.wire() + rest;
    let key_size = rec.key.len() as u64;
    lemma_i64_be_round_trip(rec.level);
    lemma_u64_be_round_trip(key_size);
    lemma_u64_be_round_trip(rec.value_size);
    lemma_u64_be_round_trip(rec.position);
    assert(bytes.subrange(32, 32 + key_size) =~= rec.key);
}

/// A hint record that was cut short is never read: every proper prefix of an
/// encoding fails to decode.
pub proof fn lemma_hint_truncated_fails(rec: HintRecord, len: int)
    requires
        rec.sized(),
        0 <= len < rec.wire().len(),
    ensures
        HintRecord::parse(rec.wire().take(len)) is None,
{
    if len >= 32 {
        lemma_hint_round_trip(rec, Seq::empty());
        lemma_field_agrees(rec.wire().take(len), rec.wire(), 8);
    }
}

/// What a decode hands out is what the bytes hold: the hint read from the
/// front of `bytes` has a key of the declared size, lies within `bytes`, and
/// is encoded as the very bytes it was read from.
pub proof fn lemma_hint_parse_wire(bytes: Seq<u8>)
    requires
        HintRecord::parse(bytes) is Some,
    ensures
        ({
            let (rec, used) = HintRecord::parse(bytes)->0;
            &&& rec.sized()
            &&& rec.key.len() == u64_from_be(bytes.skip(8))
            &&& used == 32 + rec.key.len()
            &&& used <= bytes.len()
            &&& rec.wire() == bytes.take(used as int)
        }),
{
    lemma_i64_from_be_round_trip(bytes.subrange(0, 8));
    lemma_u64_from_be_round_trip(bytes.subrange(8, 16));
    lemma_u64_from_be_round_trip(bytes.subrange(16, 24));
    lemma_u64_from_be_round_trip(bytes.subrange(24, 32));
}

/// The extent of a hint record is known from its header: the first 32 bytes
/// declare how many bytes follow, and the bytes hold a record exactly where
/// they hold that many.
pub proof fn lemma_hint_extent_from_header(bytes: Seq<u8>)
    requires
        bytes.len() >= 32,
    ensures
        HintRecord::body_len(bytes.take(32)) == HintRecord::body_len(bytes),
        HintRecord::parse(bytes) is Some <==> bytes.len() >= 32 + HintRecord::body_len(bytes),
        HintRecord::parse(bytes) matches Some((_, used)) ==> used == 32 + HintRecord::body_len(
            bytes,
        ),
{
    lemma_field_agrees(bytes.take(32), bytes, 8);
}

/// A tombstone is deleted, whatever its key.
pub proof fn lemma_tombstone_is_deleted(key: Seq<u8>)
    ensures
        HintRecord::tombstone(key).is_tombstone(),
{
}

/// A hint that points behind the start of the log is not deleted, whatever
/// the level of its data record.
pub proof fn lemma_pointer_is_not_deleted(rec: DataRecord, position: u64)
    requires
        position > 0,
    ensures
        !HintRecord::pointing_at(rec, position).is_tombstone(),
{
}

} // verus!
