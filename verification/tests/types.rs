use pumpkin_java_multiversion::api::types::{
    ArrayT, OptionalT, WireType, BOOL, I16, I64, STRING, VAR_INT, VAR_LONG, UUID, BYTE_ARRAY,
};
use pumpkin_java_multiversion::codec::{
    read_string, read_var_int, read_var_long, write_prefixed, write_var_int, write_var_long,
};

#[test]
fn scalars_and_containers_round_trip() {
    let mut buf = Vec::new();
    assert!(VAR_INT.write(&mut buf, &300));
    assert!(STRING.write(&mut buf, &b"hi".to_vec()));
    assert!(ArrayT(I16).write(&mut buf, &vec![1i16, -2]));
    assert!(OptionalT(BOOL).write(&mut buf, &Some(true)));
    assert!(OptionalT(BOOL).write(&mut buf, &None));

    let (v, p) = VAR_INT.read(&buf, 0).unwrap();
    assert_eq!(v, 300);
    let (s, p) = STRING.read(&buf, p).unwrap();
    assert_eq!(s, b"hi".to_vec());
    let (a, p) = ArrayT(I16).read(&buf, p).unwrap();
    assert_eq!(a, vec![1i16, -2]);
    let (o, p) = OptionalT(BOOL).read(&buf, p).unwrap();
    assert_eq!(o, Some(true));
    let (o, p) = OptionalT(BOOL).read(&buf, p).unwrap();
    assert_eq!(o, None);
    assert_eq!(p, buf.len());
}

#[test]
fn an_array_longer_than_the_input_is_rejected() {
    let mut buf = Vec::new();
    write_var_int(&mut buf, 1000);
    assert!(ArrayT(I64).read(&buf, 0).is_none());
}

#[test]
fn var_ints_take_one_to_five_bytes_and_read_back() {
    for (value, len) in [(0, 1), (127, 1), (128, 2), (300, 2), (2097151, 3), (i32::MAX, 5), (-1, 5), (i32::MIN, 5)] {
        let mut buf = Vec::new();
        write_var_int(&mut buf, value);
        assert_eq!(buf.len(), len, "{value}");
        assert_eq!(read_var_int(&buf, 0), Some((value, len)));
    }
    let mut buf = Vec::new();
    write_var_int(&mut buf, 300);
    assert_eq!(buf, [0xac, 0x02]);
}

#[test]
fn a_var_int_longer_than_five_bytes_is_refused() {
    assert_eq!(read_var_int(&[0x80, 0x80, 0x80, 0x80, 0x80, 0x01], 0), None);
    assert_eq!(read_var_int(&[0x80], 0), None);
}

#[test]
fn var_longs_read_back() {
    for value in [0i64, 1, -1, i64::MAX, i64::MIN, 1 << 40] {
        let mut buf = Vec::new();
        write_var_long(&mut buf, value);
        assert_eq!(read_var_long(&buf, 0), Some((value, buf.len())));
    }
    assert!(VAR_LONG.read(&[0xff; 11], 0).is_none());
}

#[test]
fn a_string_that_is_not_utf8_is_refused() {
    let mut buf = Vec::new();
    write_prefixed(&mut buf, &[0xff, 0xfe]);
    assert_eq!(read_string(&buf, 0), None);
    let mut good = Vec::new();
    write_prefixed(&mut good, "héllo".as_bytes());
    assert_eq!(read_string(&good, 0), Some(("héllo".as_bytes().to_vec(), good.len())));
}

#[test]
fn a_uuid_is_sixteen_big_endian_bytes() {
    let mut buf = Vec::new();
    assert!(UUID.write(&mut buf, &0x0102_0304_0506_0708_090a_0b0c_0d0e_0f10));
    assert_eq!(buf, (1u8..=16).collect::<Vec<u8>>());
    assert_eq!(UUID.read(&buf, 0), Some((0x0102_0304_0506_0708_090a_0b0c_0d0e_0f10, 16)));
}

#[test]
fn a_byte_array_carries_its_length() {
    let mut buf = Vec::new();
    assert!(BYTE_ARRAY.write(&mut buf, &vec![7, 8, 9]));
    assert_eq!(buf, [3, 7, 8, 9]);
    assert_eq!(BYTE_ARRAY.read(&buf, 0), Some((vec![7, 8, 9], 4)));
    assert!(BYTE_ARRAY.read(&buf[..3], 0).is_none());
}
