//! The two record formats as mathematics.
//!
//! [`DataRecord`] and [`HintRecord`] are the values that the executable
//! records stand for. Their spec functions say which bytes a record is
//! written as and which record a byte string is read as; the contracts of the
//! executable code and the laws of the format are stated over them.
//!
//! ```text
//! data record:  checksum:u32 | level:i64 | key_size:u64 | value_size:u64 | key | value
//! hint record:  level:i64 | key_size:u64 | value_size:u64 | position:u64 | key
//! ```
//!
//! All integers are big-endian. The checksum of a data record covers every
//! byte after it; a hint record has none.

use crate::checksum::crc32;
use crate::wire::i64_be;
use crate::wire::i64_from_be;
use crate::wire::u32_be;
use crate::wire::u32_from_be;
use crate::wire::u64_be;
use crate::wire::u64_from_be;
use vstd::prelude::*;

verus! {

/// The length of the fixed part of a data record: checksum, level and the two
/// sizes.
pub const DATA_HEADER_LEN: usize = 28;

/// The length of the fixed part of a hint record: level, the two sizes and
/// the position.
pub const HINT_HEADER_LEN: usize = 32;

/// The level that marks a hint record as a tombstone.
pub const TOMBSTONE_LEVEL: i64 = -1;

/// One entry of the value log: a key and a value under a level tag, with the
/// checksum that was stored beside them.
///
/// The two size fields of the format are the lengths of `key` and `value`.
pub struct DataRecord {
    pub crc: u32,
    pub level: i64,
    pub key: Seq<u8>,
    pub value: Seq<u8>,
}

impl DataRecord {
    /// Key and value are short enough for their lengths to fit the size
    /// fields.
    pub open spec fn sized(self) -> bool {
        self.key.len() <= u64::MAX && self.value.len() <= u64::MAX
    }

    /// Everything the checksum covers: level, key size, value size, key,
    /// value.
    pub open spec fn content(self) -> Seq<u8> {
        i64_be(self.level) + u64_be(self.key.len() as u64) + u64_be(self.value.len() as u64)
            + self.key + self.value
    }

    /// The stored checksum is the digest of the content.
    pub open spec fn checksum_ok(self) -> bool {
        self.crc == crc32(self.content())
    }

    /// The record as it leaves an encoder: the stored checksum is replaced by
    /// the digest of the content.
    pub open spec fn sealed(self) -> DataRecord {
        DataRecord { crc: crc32(self.content()), ..self }
    }

    /// The encoding: the digest of the content, then the content. The stored
    /// checksum does not enter.
    pub open spec fn wire(self) -> Seq<u8> {
        u32_be(crc32(self.content())) + self.content()
    }

    /// The number of key and value bytes that the header at the front of
    /// `bytes` declares: the sum of its two size fields.
    pub open spec fn body_len(bytes: Seq<u8>) -> nat
        recommends
            bytes.len() >= DATA_HEADER_LEN,
    {
        (u64_from_be(bytes.skip(12)) + u64_from_be(bytes.skip(20))) as nat
    }

    /// The record at the front of `bytes` and the number of bytes it takes,
    /// or `None` where `bytes` ends before the record does.
    pub open spec fn parse(bytes: Seq<u8>) -> Option<(DataRecord, nat)> {
        if bytes.len() < DATA_HEADER_LEN || bytes.len() < DATA_HEADER_LEN + Self::body_len(bytes) {
            None
        } else {
            let key_end = DATA_HEADER_LEN + u64_from_be(bytes.skip(12));
            let end = DATA_HEADER_LEN + Self::body_len(bytes);
            Some(
                (
                    DataRecord {
                        crc: u32_from_be(bytes),
                        level: i64_from_be(bytes.skip(4)),
                        key: bytes.subrange(DATA_HEADER_LEN as int, key_end),
                        value: bytes.subrange(key_end, end),
                    },
                    end as nat,
                ),
            )
        }
    }
}

/// One entry of the hint stream: where the data record of a key lies in the
/// value log, or that the key is deleted.
///
/// The key size field of the format is the length of `key`; the value size
/// is a field of its own, since the value is not stored here.
pub struct HintRecord {
    pub level: i64,
    pub value_size: u64,
    pub position: u64,
    pub key: Seq<u8>,
}

impl HintRecord {
    /// The key is short enough for its length to fit the size field.
    pub open spec fn sized(self) -> bool {
        self.key.len() <= u64::MAX
    }

    /// The hint for the data record `rec` that lies at `position` in the log.
    pub open spec fn pointing_at(rec: DataRecord, position: u64) -> HintRecord {
        HintRecord {
            level: rec.level,
            value_size: rec.value.len() as u64,
            position,
            key: rec.key,
        }
    }

    /// The hint that marks `key` as deleted.
    pub open spec fn tombstone(key: Seq<u8>) -> HintRecord {
        HintRecord { level: TOMBSTONE_LEVEL, value_size: 0, position: 0, key }
    }

    /// The record marks its key as deleted: the level is negative, and both
    /// the value size and the position are zero.
    pub open spec fn is_tombstone(self) -> bool {
        self.level < 0 && self.value_size == 0 && self.position == 0
    }

    /// The encoding: level, key size, value size, position, key.
    pub open spec fn wire(self) -> Seq<u8> {
        i64_be(self.level) + u64_be(self.key.len() as u64) + u64_be(self.value_size) + u64_be(
            self.position,
        ) + self.key
    }

    /// The number of key bytes that the header at the front of `bytes`
    /// declares: its key size field.
    pub open spec fn body_len(bytes: Seq<u8>) -> nat
        recommends
            bytes.len() >= HINT_HEADER_LEN,
    {
        u64_from_be(bytes.skip(8)) as nat
    }

    /// The record at the front of `bytes` and the number of bytes it takes,
    /// or `None` where `bytes` ends before the record does.
    pub open spec fn parse(bytes: Seq<u8>) -> Option<(HintRecord, nat)> {
        if bytes.len() < HINT_HEADER_LEN || bytes.len() < HINT_HEADER_LEN + Self::body_len(bytes) {
            None
        } else {
            let end = HINT_HEADER_LEN + Self::body_len(bytes);
            Some(
                (
                    HintRecord {
                        level: i64_from_be(bytes),
                        value_size: u64_from_be(bytes.skip(16)),
                        position: u64_from_be(bytes.skip(24)),
                        key: bytes.subrange(HINT_HEADER_LEN as int, end),
                    },
                    end as nat,
                ),
            )
        }
    }
}

} // verus!
