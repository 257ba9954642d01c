use storage::pod::Pod;

#[test]
fn bytes_of_unsigned_integers_start_with_the_least_significant() {
    assert_eq!(0xABu8.to_bytes(), vec![0xAB]);
    assert_eq!(0x0102u16.to_bytes(), vec![0x02, 0x01]);
    assert_eq!(0x01020304u32.to_bytes(), vec![0x04, 0x03, 0x02, 0x01]);
    assert_eq!(
        0x0102030405060708u64.to_bytes(),
        vec![0x08, 0x07, 0x06, 0x05, 0x04, 0x03, 0x02, 0x01]
    );
}

#[test]
fn unsigned_integers_come_back_from_their_bytes() {
    assert_eq!(u8::from_bytes(&[0xAB]), 0xAB);
    assert_eq!(u16::from_bytes(&[0x02, 0x01]), 0x0102);
    assert_eq!(u32::from_bytes(&[0x04, 0x03, 0x02, 0x01]), 0x01020304);
    assert_eq!(
        u64::from_bytes(&[0x08, 0x07, 0x06, 0x05, 0x04, 0x03, 0x02, 0x01]),
        0x0102030405060708
    );
}

#[test]
fn bytes_are_as_many_as_the_type_is_large() {
    assert_eq!(0u8.to_bytes().len(), core::mem::size_of::<u8>());
    assert_eq!(0u16.to_bytes().len(), core::mem::size_of::<u16>());
    assert_eq!(0u32.to_bytes().len(), core::mem::size_of::<u32>());
    assert_eq!(0u64.to_bytes().len(), core::mem::size_of::<u64>());
}

#[test]
fn values_survive_the_way_through_bytes() {
    for value in [0u64, 1, 0xFF, 0xDEAD_BEEF, u64::MAX] {
        assert_eq!(u64::from_bytes(&value.to_bytes()), value);
    }
    for value in [0u32, 1, 0xFFFF, u32::MAX] {
        assert_eq!(u32::from_bytes(&value.to_bytes()), value);
    }
    for value in [0u16, 1, 0x8000, u16::MAX] {
        assert_eq!(u16::from_bytes(&value.to_bytes()), value);
    }
    for value in [0u8, 1, 0x80, u8::MAX] {
        assert_eq!(u8::from_bytes(&value.to_bytes()), value);
    }
}

#[test]
fn zero_bytes_are_the_value_zero() {
    assert_eq!(u64::from_bytes(&[0; 8]), 0);
    assert_eq!(u32::from_bytes(&[0; 4]), 0);
    assert_eq!(u16::from_bytes(&[0; 2]), 0);
    assert_eq!(u8::from_bytes(&[0; 1]), 0);
}

#[test]
fn sixteen_bytes_hold_a_u128() {
    let value: u128 = 0x0102_0304_0506_0708_090A_0B0C_0D0E_0F10;
    assert_eq!(
        value.to_bytes(),
        vec![
            0x10, 0x0F, 0x0E, 0x0D, 0x0C, 0x0B, 0x0A, 0x09, 0x08, 0x07, 0x06, 0x05, 0x04, 0x03,
            0x02, 0x01
        ]
    );
    assert_eq!(u128::from_bytes(&value.to_bytes()), value);
    assert_eq!(u128::from_bytes(&[0; 16]), 0);
}
