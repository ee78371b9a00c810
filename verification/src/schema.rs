//! The executable records and their codecs.
//!
//! [`DataEntry`] is an entry of the value log, [`HintEntry`] an entry of the
//! hint stream. Both are written with [`Encoder::encode`] and read with
//! [`Decoder::decode`]; the contracts say, over the models of
//! [`crate::layout`], exactly which bytes are written and which record is
//! read.

use crate::checksum::crc_checksum;
use crate::layout::DataRecord;
use crate::layout::HintRecord;
use crate::layout::DATA_HEADER_LEN;
use crate::layout::HINT_HEADER_LEN;
use crate::layout::TOMBSTONE_LEVEL;
use crate::reader::ByteReader;
use crate::reader::DecodeError;
use crate::wire::get_u64_be;
use crate::wire::put_i64_be;
use crate::wire::put_u32_be;
use crate::wire::put_u64_be;
use crate::wire::u64_from_be;
use vstd::prelude::*;
use vstd::slice::slice_subrange;

verus! {

/// A record that can be written as bytes.
pub trait Encoder {
    /// The bytes that [`Encoder::encode`] emits for this record.
    spec fn wire(&self) -> Seq<u8>;

    /// Writes the record into a fresh buffer.
    fn encode(&self) -> (buf: Vec<u8>)
        ensures
            buf@ == self.wire(),
    ;
}

/// A record that can be read from a byte source.
pub trait Decoder: Sized + View {
    /// The record at the front of `bytes` and the number of bytes it takes,
    /// or `None` where `bytes` ends before the record does.
    spec fn parse(bytes: Seq<u8>) -> Option<(Self::V, nat)>;

    /// Reads one record from the front of `rdr`.
    ///
    /// Where the unread bytes hold a whole record, that record is returned
    /// and the reader stands behind it. Where they end too early, the decode
    /// fails with [`DecodeError::UnexpectedEnd`] and the reader is drained;
    /// no record is built from a short read.
    fn decode(rdr: &mut ByteReader) -> (res: Result<Self, DecodeError>)
        ensures
            match Self::parse(old(rdr).unread()) {
                Some((rec, used)) => {
                    &&& res matches Ok(entry)
                    &&& entry@ == rec
                    &&& final(rdr).follows(old(rdr), used)
                },
                None => {
                    &&& res matches Err(e)
                    &&& e == DecodeError::UnexpectedEnd
                    &&& final(rdr).drained(old(rdr))
                },
            },
    ;
}

/// An entry of the value log.
///
/// A fresh entry carries no checksum yet (the field is zero): the checksum is
/// computed when the entry is encoded, and an entry that was decoded carries
/// the checksum that was stored with it.
#[derive(Debug, PartialOrd, PartialEq)]
pub struct DataEntry {
    crc: u32,
    level: i64,
    key_size: u64,
    value_size: u64,
    key: Vec<u8>,
    value: Vec<u8>,
}

impl View for DataEntry {
    type V = DataRecord;

    closed spec fn view(&self) -> DataRecord {
        DataRecord { crc: self.crc, level: self.level, key: self.key@, value: self.value@ }
    }
}

impl Clone for DataEntry {
    fn clone(&self) -> (copy: Self)
        ensures
            copy@ == self@,
    {
        proof {
            use_type_invariant(self);
        }
        DataEntry {
            crc: self.crc,
            level: self.level,
            key_size: self.key_size,
            value_size: self.value_size,
            key: self.key.clone(),
            value: self.value.clone(),
        }
    }
}

impl DataEntry {
    #[verifier::type_invariant]
    spec fn sizes_match(self) -> bool {
        self.key_size == self.key@.len() && self.value_size == self.value@.len()
    }

    /// Key and value of an entry are held in memory, so their lengths fit the
    /// size fields: the laws of [`crate::laws`] apply to every entry.
    pub proof fn lemma_view_sized(&self)
        ensures
            self@.sized(),
    {
        assert(self.key.len() == self.key@.len());
        assert(self.value.len() == self.value@.len());
    }

    /// An entry for `key` and `value` under `level`, without a checksum.
    pub fn new(level: i64, key: Vec<u8>, value: Vec<u8>) -> (entry: Self)
        ensures
            entry@ == (DataRecord { crc: 0, level, key: key@, value: value@ }),
    {
        let key_size = key.len() as u64;
        let value_size = value.len() as u64;
        DataEntry { crc: 0, level, key_size, value_size, key, value }
    }

    /// Whether the stored checksum is the digest of the content. An entry
    /// that fails this check was corrupted or truncated on its way.
    pub fn check_crc(&self) -> (ok: bool)
        ensures
            ok == self@.checksum_ok(),
    {
        let content = self.encode_content();
        self.crc == crc_checksum(content.as_slice())
    }

    /// The bytes that the checksum covers: level, key size, value size, key,
    /// value.
    pub fn encode_content(&self) -> (buf: Vec<u8>)
        ensures
            buf@ == self@.content(),
    {
        proof {
            use_type_invariant(self);
        }
        let mut buf: Vec<u8> = Vec::new();
        put_i64_be(&mut buf, self.level);
        put_u64_be(&mut buf, self.key_size);
        put_u64_be(&mut buf, self.value_size);
        buf.extend_from_slice(self.key.as_slice());
        buf.extend_from_slice(self.value.as_slice());
        buf
    }

    /// How many bytes follow the header that `header` starts with: what a
    /// reader of a stream has to fetch, after the header, before it can decode
    /// the entry. `None` where `header` is shorter than a header, or where
    /// the two sizes together exceed `u64::MAX`.
    pub fn body_len(header: &[u8]) -> (len: Option<u64>)
        ensures
            match len {
                Some(n) => header@.len() >= DATA_HEADER_LEN && n == DataRecord::body_len(header@),
                None => header@.len() < DATA_HEADER_LEN || DataRecord::body_len(header@)
                    > u64::MAX,
            },
    {
        if header.len() < DATA_HEADER_LEN {
            return None;
        }
        let key_size = get_u64_be(slice_subrange(header, 12, 20));
        let value_size = get_u64_be(slice_subrange(header, 20, 28));
        key_size.checked_add(value_size)
    }

    /// A copy of the key.
    pub fn key(&self) -> (key: Vec<u8>)
        ensures
            key@ == self@.key,
    {
        self.key.clone()
    }

    /// A copy of the value.
    pub fn value(&self) -> (value: Vec<u8>)
        ensures
            value@ == self@.value,
    {
        self.value.clone()
    }
}

impl Encoder for DataEntry {
    open spec fn wire(&self) -> Seq<u8> {
        self@.wire()
    }

    fn encode(&self) -> (buf: Vec<u8>)
        ensures
            buf@.len() == DATA_HEADER_LEN + self@.key.len() + self@.value.len(),
    {
        let content = self.encode_content();
        let crc = crc_checksum(content.as_slice());
        let mut buf: Vec<u8> = Vec::new();
        put_u32_be(&mut buf, crc);
        buf.extend_from_slice(content.as_slice());
        buf
    }
}

impl Decoder for DataEntry {
    open spec fn parse(bytes: Seq<u8>) -> Option<(DataRecord, nat)> {
        DataRecord::parse(bytes)
    }

    fn decode(rdr: &mut ByteReader) -> (res: Result<Self, DecodeError>) {
        let ghost bytes = rdr.unread();
        let crc = rdr.read_u32_be()?;
        let level = rdr.read_i64_be()?;
        assert(bytes.skip(4).skip(8) =~= bytes.skip(12));
        let key_size = rdr.read_u64_be()?;
        assert(bytes.skip(12).skip(8) =~= bytes.skip(20));
        let value_size = rdr.read_u64_be()?;
        assert(bytes.skip(20).skip(8) =~= bytes.skip(28));
        let key = rdr.read_exact(key_size)?;
        assert(bytes.skip(28).skip(key_size as int) =~= bytes.skip(28 + key_size));
        let value = rdr.read_exact(value_size)?;
        proof {
            let end = 28 + key_size + value_size;
            assert(key@ =~= bytes.subrange(28, 28 + key_size));
            assert(value@ =~= bytes.subrange(28 + key_size, end));
            assert(bytes.skip(28 + key_size).skip(value_size as int) =~= bytes.skip(end));
        }
        Ok(DataEntry { crc, level, key_size, value_size, key, value })
    }
}

/// An entry of the hint stream: a pointer to a data entry in the value log,
/// or a tombstone.
pub struct HintEntry {
    level: i64,
    key_size: u64,
    value_size: u64,
    data_entry_position: u64,
    key: Vec<u8>,
}

impl View for HintEntry {
    type V = HintRecord;

    closed spec fn view(&self) -> HintRecord {
        HintRecord {
            level: self.level,
            value_size: self.value_size,
            position: self.data_entry_position,
            key: self.key@,
        }
    }
}

impl HintEntry {
    #[verifier::type_invariant]
    spec fn size_matches(self) -> bool {
        self.key_size == self.key@.len()
    }

    /// The key of a hint is held in memory, so its length fits the size
    /// field: the laws of [`crate::laws`] apply to every hint.
    pub proof fn lemma_view_sized(&self)
        ensures
            self@.sized(),
    {
        assert(self.key.len() == self.key@.len());
    }

    /// The hint for `entry`, which lies at byte `position` of the value log.
    pub fn from(entry: &DataEntry, position: u64) -> (hint: Self)
        ensures
            hint@ == HintRecord::pointing_at(entry@, position),
    {
        proof {
            use_type_invariant(entry);
        }
        HintEntry {
            level: entry.level,
            key_size: entry.key_size,
            value_size: entry.value_size,
            data_entry_position: position,
            key: entry.key.clone(),
        }
    }

    /// The hint that marks `key` as deleted.
    pub fn tombstone(key: Vec<u8>) -> (hint: Self)
        ensures
            hint@ == HintRecord::tombstone(key@),
    {
        HintEntry {
            level: TOMBSTONE_LEVEL,
            key_size: key.len() as u64,
            value_size: 0,
            data_entry_position: 0,
            key,
        }
    }

    /// How many bytes follow the header that `header` starts with: what a
    /// reader of a stream has to fetch, after the header, before it can decode
    /// the hint. `None` where `header` is shorter than a header.
    pub fn body_len(header: &[u8]) -> (len: Option<u64>)
        ensures
            match len {
                Some(n) => header@.len() >= HINT_HEADER_LEN && n == HintRecord::body_len(header@),
                None => header@.len() < HINT_HEADER_LEN,
            },
    {
        if header.len() < HINT_HEADER_LEN {
            return None;
        }
        let key_size = get_u64_be(slice_subrange(header, 8, 16));
        Some(key_size)
    }

    /// The byte offset of the data entry in the value log.
    pub fn data_entry_position(&self) -> (position: u64)
        ensures
            position == self@.position,
    {
        self.data_entry_position
    }

    /// Whether this hint marks its key as deleted.
    pub fn is_deleted(&self) -> (deleted: bool)
        ensures
            deleted == self@.is_tombstone(),
    {
        self.level < 0 && self.value_size == 0 && self.data_entry_position == 0
    }

    /// The length of the key.
    pub fn key_size(&self) -> (size: u64)
        ensures
            size == self@.key.len(),
    {
        proof {
            use_type_invariant(self);
        }
        self.key_size
    }

    /// The length of the value of the data entry.
    pub fn value_size(&self) -> (size: u64)
        ensures
            size == self@.value_size,
    {
        self.value_size
    }

    /// The level tag; negative in a tombstone.
    pub fn level(&self) -> (level: i64)
        ensures
            level == self@.level,
    {
        self.level
    }

    /// A copy of the key.
    pub fn key(&self) -> (key: Vec<u8>)
        ensures
            key@ == self@.key,
    {
        self.key.clone()
    }
}

impl Encoder for HintEntry {
    open spec fn wire(&self) -> Seq<u8> {
        self@.wire()
    }

    fn encode(&self) -> (buf: Vec<u8>)
        ensures
            buf@.len() == HINT_HEADER_LEN + self@.key.len(),
    {
        proof {
            use_type_invariant(self);
        }
        let mut buf: Vec<u8> = Vec::new();
        put_i64_be(&mut buf, self.level);
        put_u64_be(&mut buf, self.key_size);
        put_u64_be(&mut buf, self.value_size);
        put_u64_be(&mut buf, self.data_entry_position);
        buf.extend_from_slice(self.key.as_slice());
        buf
    }
}

impl Decoder for HintEntry {
    open spec fn parse(bytes: Seq<u8>) -> Option<(HintRecord, nat)> {
        HintRecord::parse(bytes)
    }

    fn decode(rdr: &mut ByteReader) -> (res: Result<Self, DecodeError>) {
        let ghost bytes = rdr.unread();
        let level = rdr.read_i64_be()?;
        let key_size = rdr.read_u64_be()?;
        assert(bytes.skip(8).skip(8) =~= bytes.skip(16));
        let value_size = rdr.read_u64_be()?;
        assert(bytes.skip(16).skip(8) =~= bytes.skip(24));
        let data_entry_position = rdr.read_u64_be()?;
        assert(bytes.skip(24).skip(8) =~= bytes.skip(32));
        let key = rdr.read_exact(key_size)?;
        proof {
            let end = 32 + key_size;
            assert(key@ =~= bytes.subrange(32, end));
            assert(bytes.skip(32).skip(key_size as int) =~= bytes.skip(end));
        }
        Ok(HintEntry { level, key_size, value_size, data_entry_position, key })
    }
}

} // verus!
