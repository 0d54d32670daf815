use byteorder::ByteOrder;
use tokio_byteorder::decode::ReadError;
use tokio_byteorder::endian::{native_endianness, network_endianness, Endianness};
use tokio_byteorder::io::{AsyncReadBytesExt, AsyncWriteBytesExt, SliceReader, VecWriter};

#[test]
fn read_u16_big_endian_twice() {
    // Two 16-bit big-endian values from one four-byte stream: the second
    // read continues exactly where the first stopped.
    let mut rdr = SliceReader::new(vec![2, 5, 3, 0]);
    assert_eq!(rdr.read_u16(Endianness::Big).unwrap(), 517);
    assert_eq!(rdr.read_u16(Endianness::Big).unwrap(), 768);
    assert!(matches!(rdr.read_u16(Endianness::Big), Err(ReadError::UnexpectedEnd)));
}

#[test]
fn write_u16_little_endian_twice() {
    let mut wtr = VecWriter::new();
    wtr.write_u16(517, Endianness::Little).unwrap();
    wtr.write_u16(768, Endianness::Little).unwrap();
    assert_eq!(wtr.into_inner(), vec![0x05, 0x02, 0x00, 0x03]);
}

#[test]
fn read_u8_twice() {
    let mut rdr = SliceReader::new(vec![2, 5]);
    assert_eq!(rdr.read_u8().unwrap(), 2);
    assert_eq!(rdr.read_u8().unwrap(), 5);
    assert!(matches!(rdr.read_u8(), Err(ReadError::UnexpectedEnd)));
}

#[test]
fn read_i8_twice() {
    let mut rdr = SliceReader::new(vec![0x02, 0xfb]);
    assert_eq!(rdr.read_i8().unwrap(), 2);
    assert_eq!(rdr.read_i8().unwrap(), -5);
}

#[test]
fn write_u8_and_i8() {
    let mut wtr = VecWriter::new();
    wtr.write_u8(2).unwrap();
    wtr.write_u8(5).unwrap();
    wtr.write_i8(2).unwrap();
    wtr.write_i8(-5).unwrap();
    assert_eq!(wtr.into_inner(), vec![0x02, 0x05, 0x02, 0xfb]);
}

#[test]
fn read_i16_big_endian() {
    let mut rdr = SliceReader::new(vec![0x00, 0xc1, 0xff, 0x7c]);
    assert_eq!(rdr.read_i16(Endianness::Big).unwrap(), 193);
    assert_eq!(rdr.read_i16(Endianness::Big).unwrap(), -132);
}

#[test]
fn write_i16_big_endian() {
    let mut wtr = VecWriter::new();
    wtr.write_i16(193, Endianness::Big).unwrap();
    wtr.write_i16(-132, Endianness::Big).unwrap();
    assert_eq!(wtr.into_inner(), vec![0x00, 0xc1, 0xff, 0x7c]);
}

#[test]
fn read_u24_and_i24_big_endian() {
    let mut rdr = SliceReader::new(vec![0x00, 0x01, 0x0b]);
    assert_eq!(rdr.read_u24(Endianness::Big).unwrap(), 267);
    let mut rdr = SliceReader::new(vec![0xff, 0x7a, 0x33]);
    assert_eq!(rdr.read_i24(Endianness::Big).unwrap(), -34253);
}

#[test]
fn write_u24_and_i24_big_endian() {
    let mut wtr = VecWriter::new();
    wtr.write_u24(267, Endianness::Big).unwrap();
    wtr.write_u24(120111, Endianness::Big).unwrap();
    assert_eq!(wtr.into_inner(), vec![0x00, 0x01, 0x0b, 0x01, 0xd5, 0x2f]);
    let mut wtr = VecWriter::new();
    wtr.write_i24(-34253, Endianness::Big).unwrap();
    wtr.write_i24(120111, Endianness::Big).unwrap();
    assert_eq!(wtr.into_inner(), vec![0xff, 0x7a, 0x33, 0x01, 0xd5, 0x2f]);
}

#[test]
fn read_u32_and_i32_big_endian() {
    let mut rdr = SliceReader::new(vec![0x00, 0x00, 0x01, 0x0b]);
    assert_eq!(rdr.read_u32(Endianness::Big).unwrap(), 267);
    let mut rdr = SliceReader::new(vec![0xff, 0xff, 0x7a, 0x33]);
    assert_eq!(rdr.read_i32(Endianness::Big).unwrap(), -34253);
}

#[test]
fn write_u32_and_i32_big_endian() {
    let mut wtr = VecWriter::new();
    wtr.write_u32(267, Endianness::Big).unwrap();
    wtr.write_u32(1205419366, Endianness::Big).unwrap();
    assert_eq!(wtr.into_inner(), vec![0x00, 0x00, 0x01, 0x0b, 0x47, 0xd9, 0x3d, 0x66]);
    let mut wtr = VecWriter::new();
    wtr.write_i32(-34253, Endianness::Big).unwrap();
    wtr.write_i32(1205419366, Endianness::Big).unwrap();
    assert_eq!(wtr.into_inner(), vec![0xff, 0xff, 0x7a, 0x33, 0x47, 0xd9, 0x3d, 0x66]);
}

#[test]
fn read_u48_and_i48_big_endian() {
    let mut rdr = SliceReader::new(vec![0xb6, 0x71, 0x6b, 0xdc, 0x2b, 0x31]);
    assert_eq!(rdr.read_u48(Endianness::Big).unwrap(), 200598257150769);
    let mut rdr = SliceReader::new(vec![0x9d, 0x71, 0xab, 0xe7, 0x97, 0x8f]);
    assert_eq!(rdr.read_i48(Endianness::Big).unwrap(), -108363435763825);
}

#[test]
fn write_u48_and_i48_big_endian() {
    let mut wtr = VecWriter::new();
    wtr.write_u48(52360336390828, Endianness::Big).unwrap();
    wtr.write_u48(541, Endianness::Big).unwrap();
    assert_eq!(wtr.into_inner(), vec![
        0x2f, 0x9f, 0x17, 0x40, 0x3a, 0xac, 0x00, 0x00, 0x00, 0x00, 0x02, 0x1d,
    ]);
    let mut wtr = VecWriter::new();
    wtr.write_i48(-108363435763825, Endianness::Big).unwrap();
    wtr.write_i48(77, Endianness::Big).unwrap();
    assert_eq!(wtr.into_inner(), vec![
        0x9d, 0x71, 0xab, 0xe7, 0x97, 0x8f, 0x00, 0x00, 0x00, 0x00, 0x00, 0x4d,
    ]);
}

#[test]
fn read_u64_big_endian() {
    let mut rdr = SliceReader::new(vec![0x00, 0x03, 0x43, 0x95, 0x4d, 0x60, 0x86, 0x83]);
    assert_eq!(rdr.read_u64(Endianness::Big).unwrap(), 918733457491587);
}

#[test]
fn read_i64_min_big_endian() {
    let mut rdr = SliceReader::new(vec![0x80, 0, 0, 0, 0, 0, 0, 0]);
    assert_eq!(rdr.read_i64(Endianness::Big).unwrap(), i64::MIN);
}

#[test]
fn write_u64_and_i64_big_endian() {
    let mut wtr = VecWriter::new();
    wtr.write_u64(918733457491587, Endianness::Big).unwrap();
    wtr.write_u64(143, Endianness::Big).unwrap();
    assert_eq!(wtr.into_inner(), vec![
        0x00, 0x03, 0x43, 0x95, 0x4d, 0x60, 0x86, 0x83, 0x00, 0x00, 0x00, 0x00, 0x00, 0x00, 0x00,
        0x8f,
    ]);
    let mut wtr = VecWriter::new();
    wtr.write_i64(i64::MIN, Endianness::Big).unwrap();
    wtr.write_i64(i64::MAX, Endianness::Big).unwrap();
    assert_eq!(wtr.into_inner(), vec![
        0x80, 0x00, 0x00, 0x00, 0x00, 0x00, 0x00, 0x00, 0x7f, 0xff, 0xff, 0xff, 0xff, 0xff, 0xff,
        0xff,
    ]);
}

#[test]
fn read_u128_and_i128_big_endian() {
    let mut rdr = SliceReader::new(vec![
        0x00, 0x03, 0x43, 0x95, 0x4d, 0x60, 0x86, 0x83, 0x00, 0x03, 0x43, 0x95, 0x4d, 0x60, 0x86,
        0x83,
    ]);
    assert_eq!(rdr.read_u128(Endianness::Big).unwrap(), 16947640962301618749969007319746179);
    let mut rdr = SliceReader::new(vec![0x80, 0, 0, 0, 0, 0, 0, 0, 0, 0, 0, 0, 0, 0, 0, 0]);
    assert_eq!(rdr.read_i128(Endianness::Big).unwrap(), i128::MIN);
}

#[test]
fn write_u128_and_i128() {
    let mut wtr = VecWriter::new();
    wtr.write_u128(1, Endianness::Little).unwrap();
    wtr.write_i128(-1, Endianness::Big).unwrap();
    let mut expect = vec![1u8];
    expect.extend_from_slice(&[0; 15]);
    expect.extend_from_slice(&[0xff; 16]);
    assert_eq!(wtr.into_inner(), expect);
}

#[test]
fn short_stream_reports_unexpected_end_and_consumes_nothing() {
    let mut rdr = SliceReader::new(vec![0xaa, 0xbb]);
    assert!(matches!(rdr.read_u32(Endianness::Big), Err(ReadError::UnexpectedEnd)));
    // The two bytes are still there for a narrower read.
    assert_eq!(rdr.read_u16(Endianness::Big).unwrap(), 0xaabb);
}

#[test]
fn empty_stream_fails_every_width() {
    let mut rdr = SliceReader::new(vec![]);
    assert!(matches!(rdr.read_u8(), Err(ReadError::UnexpectedEnd)));
    assert!(matches!(rdr.read_i128(Endianness::Little), Err(ReadError::UnexpectedEnd)));
}

#[test]
fn network_endianness_is_big() {
    let mut wtr = VecWriter::new();
    wtr.write_u16(517, network_endianness()).unwrap();
    assert_eq!(wtr.into_inner(), vec![0x02, 0x05]);
}

#[test]
fn native_endianness_matches_the_host() {
    // byteorder's NativeEndian and the probe behind native_endianness must
    // see the same machine.
    let mut buf = [0u8; 2];
    byteorder::NativeEndian::write_u16(&mut buf, 0x0102);
    let host_is_little = buf[0] == 0x02;
    assert_eq!(native_endianness() == Endianness::Little, host_is_little);
    let mut wtr = VecWriter::new();
    wtr.write_u16(0x0102, native_endianness()).unwrap();
    assert_eq!(wtr.into_inner(), buf.to_vec());
}

#[test]
fn mixed_width_stream_round_trip() {
    let mut wtr = VecWriter::new();
    wtr.write_u8(7).unwrap();
    wtr.write_i24(-34253, Endianness::Big).unwrap();
    wtr.write_u48(541, Endianness::Little).unwrap();
    wtr.write_i128(i128::MIN + 3, Endianness::Little).unwrap();
    let mut rdr = SliceReader::new(wtr.into_inner());
    assert_eq!(rdr.read_u8().unwrap(), 7);
    assert_eq!(rdr.read_i24(Endianness::Big).unwrap(), -34253);
    assert_eq!(rdr.read_u48(Endianness::Little).unwrap(), 541);
    assert_eq!(rdr.read_i128(Endianness::Little).unwrap(), i128::MIN + 3);
}
