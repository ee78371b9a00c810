use kv_schema::reader::ByteReader;
use kv_schema::reader::DecodeError;

#[test]
fn new_reader_stands_at_the_start() {
    let rdr = ByteReader::new(vec![1, 2, 3]);
    assert_eq!(rdr.position(), 0);
    assert_eq!(rdr.remaining(), 3);
}

#[test]
fn read_exact_delivers_the_bytes_in_order() {
    let mut rdr = ByteReader::new(vec![1, 2, 3, 4, 5]);
    assert_eq!(rdr.read_exact(2), Ok(vec![1, 2]));
    assert_eq!(rdr.position(), 2);
    assert_eq!(rdr.remaining(), 3);
    assert_eq!(rdr.read_exact(0), Ok(vec![]));
    assert_eq!(rdr.position(), 2);
    assert_eq!(rdr.read_exact(3), Ok(vec![3, 4, 5]));
    assert_eq!(rdr.position(), 5);
    assert_eq!(rdr.remaining(), 0);
    assert_eq!(rdr.read_exact(0), Ok(vec![]));
}

#[test]
fn short_read_fails_and_drains_the_reader() {
    let mut rdr = ByteReader::new(vec![1, 2, 3]);
    assert_eq!(rdr.read_exact(4), Err(DecodeError::UnexpectedEnd));
    assert_eq!(rdr.remaining(), 0);
    assert_eq!(rdr.position(), 3);
    assert_eq!(rdr.read_exact(1), Err(DecodeError::UnexpectedEnd));
    assert_eq!(rdr.read_exact(0), Ok(vec![]));
}

#[test]
fn huge_read_fails() {
    let mut rdr = ByteReader::new(vec![1, 2, 3]);
    assert_eq!(rdr.read_exact(u64::MAX), Err(DecodeError::UnexpectedEnd));
    assert_eq!(rdr.remaining(), 0);
}

#[test]
fn fixed_width_reads_are_big_endian() {
    let mut rdr = ByteReader::new(vec![
        0x12, 0x34, 0x56, 0x78, // u32
        0x01, 0x02, 0x03, 0x04, 0x05, 0x06, 0x07, 0x08, // u64
        0xff, 0xff, 0xff, 0xff, 0xff, 0xff, 0xff, 0xfe, // i64
    ]);
    assert_eq!(rdr.read_u32_be(), Ok(0x1234_5678));
    assert_eq!(rdr.position(), 4);
    assert_eq!(rdr.read_u64_be(), Ok(0x0102_0304_0506_0708));
    assert_eq!(rdr.position(), 12);
    assert_eq!(rdr.read_i64_be(), Ok(-2));
    assert_eq!(rdr.position(), 20);
    assert_eq!(rdr.remaining(), 0);
}

#[test]
fn fixed_width_reads_fail_on_a_short_field() {
    let mut rdr = ByteReader::new(vec![1, 2, 3]);
    assert_eq!(rdr.read_u32_be(), Err(DecodeError::UnexpectedEnd));
    assert_eq!(rdr.remaining(), 0);

    let mut rdr = ByteReader::new(vec![1, 2, 3, 4, 5, 6, 7]);
    assert_eq!(rdr.read_u64_be(), Err(DecodeError::UnexpectedEnd));
    assert_eq!(rdr.position(), 7);

    let mut rdr = ByteReader::new(vec![1, 2, 3, 4, 5, 6, 7]);
    assert_eq!(rdr.read_i64_be(), Err(DecodeError::UnexpectedEnd));
    assert_eq!(rdr.position(), 7);
}
