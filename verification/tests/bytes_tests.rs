use events::bytes::{u32_from_be_bytes, u32_to_be_bytes, wide_from_be_bytes, wide_to_be_bytes};

#[test]
fn u32_encodes_fixed_width_big_endian() {
    assert_eq!(u32_to_be_bytes(0x12345678), vec![0x12, 0x34, 0x56, 0x78]);
    assert_eq!(u32_to_be_bytes(0), vec![0, 0, 0, 0]);
    assert_eq!(u32_to_be_bytes(u32::MAX), vec![0xff, 0xff, 0xff, 0xff]);
    assert_eq!(u32_to_be_bytes(2), vec![0, 0, 0, 2]);
}

#[test]
fn u32_bytes_round_trip() {
    for x in [0u32, 1, 2, 255, 256, 0xdead_beef, u32::MAX] {
        assert_eq!(u32_from_be_bytes(&u32_to_be_bytes(x)), x);
    }
}

#[test]
fn wide_int_sixteen_byte_two_s_complement() {
    assert_eq!(wide_to_be_bytes(0).len(), 16);
    assert_eq!(wide_to_be_bytes(-1), vec![0xff; 16]);
    let mut min = vec![0u8; 16];
    min[0] = 0x80;
    assert_eq!(wide_to_be_bytes(i128::MIN), min);
    let mut five = vec![0u8; 16];
    five[15] = 5;
    assert_eq!(wide_to_be_bytes(5), five);
}

#[test]
fn wide_int_bytes_round_trip_exceeds_64_bit_range() {
    let big: i128 = 170141183460469231731687303715884105000;
    assert!(big > i64::MAX as i128);
    let bytes = wide_to_be_bytes(big);
    assert_eq!(bytes.len(), 16);
    assert_eq!(wide_from_be_bytes(&bytes), big);
}

#[test]
fn wide_int_bytes_round_trip_edge_values() {
    for x in [
        0i128,
        1,
        -1,
        i64::MAX as i128,
        i64::MIN as i128,
        i128::MAX,
        i128::MIN,
        -170141183460469231731687303715884105000,
    ] {
        assert_eq!(wide_from_be_bytes(&wide_to_be_bytes(x)), x);
    }
}

#[test]
fn wide_int_decode_reads_sign_from_the_top_bit() {
    let mut top = vec![0u8; 16];
    top[0] = 0x7f;
    for b in top.iter_mut().skip(1) {
        *b = 0xff;
    }
    assert_eq!(wide_from_be_bytes(&top), i128::MAX);
    assert_eq!(wide_from_be_bytes(&vec![0u8; 16]), 0);
}
