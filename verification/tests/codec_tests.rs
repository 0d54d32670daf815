use byteorder::ByteOrder;
use tokio_byteorder::codec::{
    read_i128, read_i16, read_i24, read_i32, read_i48, read_i64, read_i8, read_u128, read_u16,
    read_u24, read_u32, read_u48, read_u64, read_u8, write_i128, write_i16, write_i24, write_i32,
    write_i48, write_i64, write_i8, write_u128, write_u16, write_u24, write_u32, write_u48,
    write_u64, write_u8,
};
use tokio_byteorder::endian::Endianness;

const BOTH: [Endianness; 2] = [Endianness::Big, Endianness::Little];

#[test]
fn round_trip_u8_i8() {
    for v in [0u8, 1, 127, 128, 255] {
        assert_eq!(read_u8(&write_u8(v)), v);
    }
    for v in [-128i8, -1, 0, 1, 127] {
        assert_eq!(read_i8(&write_i8(v)), v);
    }
}

#[test]
fn round_trip_u16() {
    for e in BOTH {
        for v in [0u16, 1, 517, 768, 0x7fff, 0x8000, u16::MAX] {
            assert_eq!(read_u16(&write_u16(v, e), e), v);
        }
    }
}

#[test]
fn round_trip_i16() {
    for e in BOTH {
        for v in [i16::MIN, -132, -1, 0, 1, 193, i16::MAX] {
            assert_eq!(read_i16(&write_i16(v, e), e), v);
        }
    }
}

#[test]
fn round_trip_u24_i24() {
    for e in BOTH {
        for v in [0u32, 1, 267, 120111, 0xffffff] {
            assert_eq!(read_u24(&write_u24(v, e), e), v);
        }
        for v in [-0x800000i32, -34253, -1, 0, 1, 120111, 0x7fffff] {
            assert_eq!(read_i24(&write_i24(v, e), e), v);
        }
    }
}

#[test]
fn round_trip_u32_i32() {
    for e in BOTH {
        for v in [0u32, 1, 267, 1205419366, u32::MAX] {
            assert_eq!(read_u32(&write_u32(v, e), e), v);
        }
        for v in [i32::MIN, -34253, -1, 0, 1, 1205419366, i32::MAX] {
            assert_eq!(read_i32(&write_i32(v, e), e), v);
        }
    }
}

#[test]
fn round_trip_u48_i48() {
    for e in BOTH {
        for v in [0u64, 1, 541, 52360336390828, 200598257150769, 0xffffffffffff] {
            assert_eq!(read_u48(&write_u48(v, e), e), v);
        }
        for v in [-0x800000000000i64, -108363435763825, -1, 0, 77, 0x7fffffffffff] {
            assert_eq!(read_i48(&write_i48(v, e), e), v);
        }
    }
}

#[test]
fn round_trip_u64_i64() {
    for e in BOTH {
        for v in [0u64, 1, 143, 918733457491587, u64::MAX] {
            assert_eq!(read_u64(&write_u64(v, e), e), v);
        }
        for v in [i64::MIN, -1, 0, 1, i64::MAX] {
            assert_eq!(read_i64(&write_i64(v, e), e), v);
        }
    }
}

#[test]
fn round_trip_u128_i128() {
    for e in BOTH {
        for v in [0u128, 1, 16947640962301618749969007319746179, u128::MAX] {
            assert_eq!(read_u128(&write_u128(v, e), e), v);
        }
        for v in [i128::MIN, -1, 0, 1, i128::MAX] {
            assert_eq!(read_i128(&write_i128(v, e), e), v);
        }
    }
}

#[test]
fn big_endian_wire_format_is_bit_exact() {
    // The documented wire format for 1205419366 in 32-bit big-endian.
    assert_eq!(write_u32(1205419366, Endianness::Big), vec![0x47, 0xd9, 0x3d, 0x66]);
    assert_eq!(read_u32(&[0x47, 0xd9, 0x3d, 0x66], Endianness::Big), 1205419366);
}

#[test]
fn little_endian_wire_format_is_bit_exact() {
    assert_eq!(write_u16(517, Endianness::Little), vec![0x05, 0x02]);
    assert_eq!(write_u16(768, Endianness::Little), vec![0x00, 0x03]);
    assert_eq!(write_u16(517, Endianness::Big), vec![0x02, 0x05]);
}

#[test]
fn signed_24_bit_big_endian_example() {
    assert_eq!(read_i24(&[0xff, 0x7a, 0x33], Endianness::Big), -34253);
    assert_eq!(write_i24(-34253, Endianness::Big), vec![0xff, 0x7a, 0x33]);
}

#[test]
fn truncation_keeps_low_order_bytes() {
    // Values out of the 24- and 48-bit ranges keep only the bytes that fit,
    // per two's-complement truncation.
    assert_eq!(write_u24(0x12345678, Endianness::Big), vec![0x34, 0x56, 0x78]);
    assert_eq!(write_u24(0x12345678, Endianness::Little), vec![0x78, 0x56, 0x34]);
    assert_eq!(write_i24(i32::MIN, Endianness::Big), vec![0x00, 0x00, 0x00]);
    assert_eq!(write_i24(-0x800001, Endianness::Big), vec![0x7f, 0xff, 0xff]);
    assert_eq!(write_u48(0x0123456789abcdef, Endianness::Big), vec![
        0x45, 0x67, 0x89, 0xab, 0xcd, 0xef,
    ]);
    assert_eq!(write_i48(i64::MIN, Endianness::Little), vec![0, 0, 0, 0, 0, 0]);
}

#[test]
fn decode_is_total_on_any_buffer() {
    // Decoding never fails, whatever the three bytes hold.
    for hi in [0x00u8, 0x7f, 0x80, 0xff] {
        let buf = [hi, 0xab, 0xcd];
        let u = read_u24(&buf, Endianness::Big);
        let s = read_i24(&buf, Endianness::Big);
        if hi < 0x80 {
            assert_eq!(s as i64, u as i64);
        } else {
            assert_eq!(s as i64, u as i64 - 0x1000000);
        }
    }
}

#[test]
fn agrees_with_byteorder_big_endian() {
    let buf = [0x00, 0x03, 0x43, 0x95, 0x4d, 0x60, 0x86, 0x83];
    assert_eq!(read_u64(&buf, Endianness::Big), byteorder::BigEndian::read_u64(&buf));
    assert_eq!(read_u48(&buf[..6], Endianness::Big), byteorder::BigEndian::read_u48(&buf[..6]));
    assert_eq!(read_i24(&buf[..3], Endianness::Big), byteorder::BigEndian::read_i24(&buf[..3]));
    let mut expect = [0u8; 6];
    byteorder::BigEndian::write_i48(&mut expect, -108363435763825);
    assert_eq!(write_i48(-108363435763825, Endianness::Big), expect.to_vec());
}

#[test]
fn agrees_with_byteorder_little_endian() {
    let buf = [0x9d, 0x71, 0xab, 0xe7, 0x97, 0x8f, 0x01, 0x02];
    assert_eq!(read_u64(&buf, Endianness::Little), byteorder::LittleEndian::read_u64(&buf));
    assert_eq!(read_i16(&buf[..2], Endianness::Little), byteorder::LittleEndian::read_i16(&buf[..2]));
    assert_eq!(read_u24(&buf[..3], Endianness::Little), byteorder::LittleEndian::read_u24(&buf[..3]));
    let mut expect = [0u8; 16];
    byteorder::LittleEndian::write_u128(&mut expect, 16947640962301618749969007319746179);
    assert_eq!(write_u128(16947640962301618749969007319746179, Endianness::Little), expect.to_vec());
}

#[test]
fn i64_min_big_endian_example() {
    assert_eq!(read_i64(&[0x80, 0, 0, 0, 0, 0, 0, 0], Endianness::Big), i64::MIN);
    assert_eq!(write_i64(i64::MIN, Endianness::Big), vec![0x80, 0, 0, 0, 0, 0, 0, 0]);
}

#[test]
fn i128_min_big_endian_example() {
    let buf = [0x80, 0, 0, 0, 0, 0, 0, 0, 0, 0, 0, 0, 0, 0, 0, 0];
    assert_eq!(read_i128(&buf, Endianness::Big), i128::MIN);
    assert_eq!(write_i128(i128::MIN, Endianness::Big), buf.to_vec());
}
