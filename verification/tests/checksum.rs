use kv_schema::checksum::crc32_bitwise;
use kv_schema::schema::DataEntry;
use kv_schema::schema::Encoder;

fn stored_checksum(bytes: &[u8]) -> u32 {
    u32::from_be_bytes([bytes[0], bytes[1], bytes[2], bytes[3]])
}

#[test]
fn bitwise_digest_has_the_standard_check_values() {
    assert_eq!(crc32_bitwise(b""), 0);
    assert_eq!(crc32_bitwise(b"\x00"), 0xd202_ef8d);
    assert_eq!(crc32_bitwise(b"123456789"), 0xcbf4_3926);
    assert_eq!(crc32_bitwise(b"hello world"), 0x0d4a_1185);
}

#[test]
fn bitwise_digest_agrees_with_the_fast_digest() {
    let mut input: Vec<u8> = Vec::new();
    let mut seed: u32 = 0x1234_5678;
    for len in 0..300 {
        assert_eq!(crc32_bitwise(&input), crc32fast::hash(&input), "length {}", len);
        seed = seed.wrapping_mul(1_664_525).wrapping_add(1_013_904_223);
        input.push((seed >> 24) as u8);
    }
}

#[test]
fn encoder_stores_the_digest_of_the_content() {
    let rec = DataEntry::new(0, vec![2, 2, 3, 54, 12], vec![32, 4, 1, 32, 65, 78]);
    let bytes = rec.encode();
    assert_eq!(stored_checksum(&bytes), 0x2682_d7df);
    assert_eq!(stored_checksum(&bytes), crc32_bitwise(&rec.encode_content()));
    assert_eq!(stored_checksum(&bytes), crc32fast::hash(&bytes[4..]));
}

#[test]
fn encoder_and_bitwise_digest_agree_on_many_records() {
    let mut seed: u32 = 99;
    for round in 0..50 {
        let mut key: Vec<u8> = Vec::new();
        let mut value: Vec<u8> = Vec::new();
        for _ in 0..(round % 7) {
            seed = seed.wrapping_mul(1_664_525).wrapping_add(1_013_904_223);
            key.push((seed >> 24) as u8);
        }
        for _ in 0..(round * 3) {
            seed = seed.wrapping_mul(1_664_525).wrapping_add(1_013_904_223);
            value.push((seed >> 24) as u8);
        }
        let rec = DataEntry::new(round as i64 - 25, key, value);
        let bytes = rec.encode();
        assert_eq!(stored_checksum(&bytes), crc32_bitwise(&bytes[4..]));
    }
}

#[test]
fn digest_depends_on_the_order_of_the_bytes() {
    assert_ne!(crc32_bitwise(&[1, 2]), crc32_bitwise(&[2, 1]));
    let ab = DataEntry::new(0, vec![1, 2], vec![]).encode();
    let ba = DataEntry::new(0, vec![2, 1], vec![]).encode();
    assert_ne!(stored_checksum(&ab), stored_checksum(&ba));
}

#[test]
fn digest_tells_key_bytes_from_value_bytes() {
    let a = DataEntry::new(0, vec![1, 2], vec![3]).encode();
    let b = DataEntry::new(0, vec![1], vec![2, 3]).encode();
    assert_ne!(stored_checksum(&a), stored_checksum(&b));
}
