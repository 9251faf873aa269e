use streamutils::byte_readers::{from_bytes_be, from_bytes_le, EndOfInput, FromBytes};

#[test]
fn read_bytes_test() {
    let data = [1u8, 0, 0, 0];
    let x = i32::from_bytes_le(&data).unwrap();
    assert_eq!(x, 1);

    let x = i32::from_bytes_be(&data).unwrap();
    assert_eq!(x, 16777216);

    let x: i32 = from_bytes_le(&data).unwrap();
    assert_eq!(x, 1);
}

#[test]
fn read_unsigned_test() {
    let data = [0x34u8, 0x12, 0xFF, 0xFF];
    assert_eq!(u16::from_bytes_le(&data).unwrap(), 0x1234);
    assert_eq!(u16::from_bytes_be(&data).unwrap(), 0x3412);
    assert_eq!(u32::from_bytes_le(&data).unwrap(), 0xFFFF1234);
    assert_eq!(u32::from_bytes_be(&data).unwrap(), 0x3412FFFF);
    assert_eq!(u8::from_bytes_le(&data).unwrap(), 0x34);
}

#[test]
fn read_negative_test() {
    let data = [0xFFu8, 0xFF, 0xFF, 0xFF, 0xFF, 0xFF, 0xFF, 0xFF];
    assert_eq!(i8::from_bytes_le(&data).unwrap(), -1);
    assert_eq!(i16::from_bytes_be(&data).unwrap(), -1);
    assert_eq!(i32::from_bytes_le(&data).unwrap(), -1);
    assert_eq!(i64::from_bytes_be(&data).unwrap(), -1);

    let min = [0x00u8, 0x00, 0x00, 0x80];
    assert_eq!(i32::from_bytes_le(&min).unwrap(), i32::MIN);
    assert_eq!(i8::from_bytes_le(&[0x80]).unwrap(), i8::MIN);
}

#[test]
fn read_wide_test() {
    let mut data = [0u8; 16];
    data[0] = 7;
    assert_eq!(u128::from_bytes_le(&data).unwrap(), 7);
    assert_eq!(i128::from_bytes_be(&data).unwrap(), 7 << 120);
    assert_eq!(u64::from_bytes_le(&data).unwrap(), 7);
    assert_eq!(i64::from_bytes_le(&data).unwrap(), 7);
}

#[test]
fn native_matches_little_endian_test() {
    let data = [0xABu8, 0xCD, 0x01, 0x02];
    assert_eq!(
        u32::from_bytes_ne(&data).unwrap(),
        u32::from_bytes_le(&data).unwrap()
    );
    assert_eq!(u32::from_bytes_ne(&data).unwrap(), u32::from_ne_bytes(data));
}

#[test]
fn read_bool_test() {
    assert_eq!(bool::from_bytes_ne(&[0]).unwrap(), false);
    assert_eq!(bool::from_bytes_le(&[1]).unwrap(), true);
    assert_eq!(bool::from_bytes_be(&[42]).unwrap(), true);
}

#[test]
fn short_input_test() {
    let data = [1u8, 2, 3];
    assert_eq!(u32::from_bytes_le(&data), Err(EndOfInput));
    assert_eq!(i32::from_bytes_be(&data), Err(EndOfInput));
    assert_eq!(from_bytes_be::<u64>(&data), Err(EndOfInput));
    assert_eq!(bool::from_bytes_ne(&[]), Err(EndOfInput));
    assert_eq!(u16::from_bytes_le(&data[..2]).unwrap(), 0x0201);
}
