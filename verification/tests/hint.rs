use kv_schema::reader::ByteReader;
use kv_schema::reader::DecodeError;
use kv_schema::schema::DataEntry;
use kv_schema::schema::Decoder;
use kv_schema::schema::Encoder;
use kv_schema::schema::HintEntry;

fn decode_hint(bytes: Vec<u8>) -> HintEntry {
    let mut rdr = ByteReader::new(bytes);
    let hint = HintEntry::decode(&mut rdr).unwrap();
    assert_eq!(rdr.remaining(), 0);
    hint
}

#[test]
fn hint_copies_the_fields_of_its_data_entry() {
    let rec = DataEntry::new(7, vec![2, 2, 3, 54, 12], vec![32, 4, 1, 32, 65, 78]);
    let hint = HintEntry::from(&rec, 4096);
    assert_eq!(hint.level(), 7);
    assert_eq!(hint.key_size(), 5);
    assert_eq!(hint.value_size(), 6);
    assert_eq!(hint.data_entry_position(), 4096);
    assert_eq!(hint.key(), vec![2, 2, 3, 54, 12]);
    assert!(!hint.is_deleted());
}

#[test]
fn tombstone_has_the_reserved_fields() {
    let hint = HintEntry::tombstone(vec![9, 8, 7]);
    assert_eq!(hint.level(), -1);
    assert_eq!(hint.key_size(), 3);
    assert_eq!(hint.value_size(), 0);
    assert_eq!(hint.data_entry_position(), 0);
    assert_eq!(hint.key(), vec![9, 8, 7]);
    assert!(hint.is_deleted());
}

#[test]
fn tombstone_is_deleted_for_any_key() {
    let keys: [Vec<u8>; 4] = [vec![], vec![0], vec![1, 2, 3], vec![255; 300]];
    for key in keys {
        assert!(HintEntry::tombstone(key).is_deleted());
    }
}

#[test]
fn hint_with_a_position_is_never_deleted() {
    let levels: [i64; 5] = [0, 1, -1, i64::MIN, i64::MAX];
    let positions: [u64; 3] = [1, 28, u64::MAX];
    for level in levels {
        for position in positions {
            let with_value = DataEntry::new(level, vec![1], vec![2]);
            let without_value = DataEntry::new(level, vec![1], vec![]);
            assert!(!HintEntry::from(&with_value, position).is_deleted());
            assert!(!HintEntry::from(&without_value, position).is_deleted());
        }
    }
}

#[test]
fn deletion_needs_all_three_conditions() {
    // negative level, no value, position zero: read as a tombstone
    assert!(HintEntry::from(&DataEntry::new(-5, vec![1], vec![]), 0).is_deleted());
    // a value
    assert!(!HintEntry::from(&DataEntry::new(-5, vec![1], vec![0]), 0).is_deleted());
    // a level that is not negative
    assert!(!HintEntry::from(&DataEntry::new(0, vec![1], vec![]), 0).is_deleted());
    // a position
    assert!(!HintEntry::from(&DataEntry::new(-5, vec![1], vec![]), 1).is_deleted());
}

#[test]
fn hint_has_the_documented_bytes() {
    let rec = DataEntry::new(3, vec![2, 2, 3, 54, 12], vec![32, 4, 1, 32, 65, 78]);
    let bytes = HintEntry::from(&rec, 0x0102_0304_0506_0708).encode();
    let expected: Vec<u8> = vec![
        0, 0, 0, 0, 0, 0, 0, 3, // level
        0, 0, 0, 0, 0, 0, 0, 5, // key size
        0, 0, 0, 0, 0, 0, 0, 6, // value size
        1, 2, 3, 4, 5, 6, 7, 8, // position
        2, 2, 3, 54, 12, // key
    ];
    assert_eq!(bytes.len(), 32 + 5);
    assert_eq!(bytes, expected);
}

#[test]
fn tombstone_has_the_documented_bytes() {
    let bytes = HintEntry::tombstone(vec![7, 7]).encode();
    let expected: Vec<u8> = vec![
        255, 255, 255, 255, 255, 255, 255, 255, // level -1
        0, 0, 0, 0, 0, 0, 0, 2, // key size
        0, 0, 0, 0, 0, 0, 0, 0, // value size
        0, 0, 0, 0, 0, 0, 0, 0, // position
        7, 7, // key
    ];
    assert_eq!(bytes, expected);
}

#[test]
fn hint_round_trip_from_record() {
    let levels: [i64; 4] = [0, -1, i64::MAX, i64::MIN];
    let positions: [u64; 4] = [0, 1, 1 << 40, u64::MAX];
    let keys: [Vec<u8>; 3] = [vec![], vec![1], vec![5; 77]];
    for level in levels {
        for position in positions {
            for key in &keys {
                let rec = DataEntry::new(level, key.clone(), vec![1, 2, 3]);
                let hint = HintEntry::from(&rec, position);
                let bytes = hint.encode();
                assert_eq!(bytes.len(), 32 + key.len());
                let back = decode_hint(bytes);
                assert_eq!(back.level(), level);
                assert_eq!(back.key_size(), key.len() as u64);
                assert_eq!(back.value_size(), 3);
                assert_eq!(back.data_entry_position(), position);
                assert_eq!(&back.key(), key);
                assert_eq!(back.is_deleted(), hint.is_deleted());
            }
        }
    }
}

#[test]
fn hint_round_trip_tombstone() {
    let keys: [Vec<u8>; 3] = [vec![], vec![1], vec![5; 77]];
    for key in keys {
        let back = decode_hint(HintEntry::tombstone(key.clone()).encode());
        assert_eq!(back.level(), -1);
        assert_eq!(back.key_size(), key.len() as u64);
        assert_eq!(back.value_size(), 0);
        assert_eq!(back.data_entry_position(), 0);
        assert_eq!(back.key(), key);
        assert!(back.is_deleted());
    }
}

#[test]
fn hint_of_a_decoded_entry_matches_the_hint_of_the_encoded_entry() {
    let rec = DataEntry::new(11, vec![1, 2, 3], vec![4, 5, 6, 7]);
    let decoded = DataEntry::decode(&mut ByteReader::new(rec.encode())).unwrap();
    assert_eq!(HintEntry::from(&decoded, 64).encode(), HintEntry::from(&rec, 64).encode());
}

#[test]
fn hints_are_read_one_after_another_from_a_stream() {
    let rec = DataEntry::new(1, vec![b'k'], vec![b'v']);
    let mut stream = HintEntry::from(&rec, 0).encode();
    stream.extend_from_slice(&HintEntry::tombstone(vec![b'k']).encode());
    let mut rdr = ByteReader::new(stream);
    let first = HintEntry::decode(&mut rdr).unwrap();
    assert_eq!(rdr.position(), 33);
    let second = HintEntry::decode(&mut rdr).unwrap();
    assert_eq!(rdr.position(), 66);
    assert!(!first.is_deleted());
    assert!(second.is_deleted());
    assert!(matches!(HintEntry::decode(&mut rdr), Err(DecodeError::UnexpectedEnd)));
}

#[test]
fn truncated_hint_fails_at_every_length() {
    let bytes = HintEntry::from(&DataEntry::new(1, vec![1, 2, 3, 4], vec![9]), 5).encode();
    for len in 0..bytes.len() {
        let mut rdr = ByteReader::new(bytes[..len].to_vec());
        assert!(matches!(HintEntry::decode(&mut rdr), Err(DecodeError::UnexpectedEnd)));
        assert_eq!(rdr.remaining(), 0);
        assert_eq!(rdr.position(), len);
    }
}

#[test]
fn hint_key_accessor_returns_a_copy() {
    let hint = HintEntry::tombstone(vec![1, 2]);
    let mut key = hint.key();
    key[0] = 50;
    assert_eq!(hint.key(), vec![1, 2]);
}

#[test]
fn hint_body_len_is_the_key_size() {
    let bytes = HintEntry::tombstone(vec![1, 2, 3]).encode();
    assert_eq!(HintEntry::body_len(&bytes[..32]), Some(3));
    assert_eq!(HintEntry::body_len(&bytes), Some(3));
    assert_eq!(HintEntry::body_len(&bytes[..31]), None);
    let mut header: Vec<u8> = vec![0; 32];
    for byte in &mut header[8..16] {
        *byte = 255;
    }
    assert_eq!(HintEntry::body_len(&header), Some(u64::MAX));
}
