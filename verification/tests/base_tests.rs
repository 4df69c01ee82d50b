use chip8::base::{mk_un, u16_to_u8, u8_to_u16, Nibble, U12};

#[test]
fn nibble_new_keeps_value() {
    let n = Nibble::new(0xA);
    assert_eq!(n.0, 10);
}

#[test]
fn byte_splits_into_nibbles() {
    let parts = Nibble::byte_to_nibbles(0xAB);
    assert_eq!(parts[0].0, 0xA);
    assert_eq!(parts[1].0, 0xB);
    let parts = Nibble::byte_to_nibbles(0x07);
    assert_eq!(parts[0].0, 0);
    assert_eq!(parts[1].0, 7);
}

#[test]
fn mk_un_packs_big_endian() {
    assert_eq!(mk_un(&[]), 0);
    assert_eq!(mk_un(&[0xF]), 0xF);
    assert_eq!(mk_un(&[0x1, 0x2, 0x3]), 0x123);
    assert_eq!(mk_un(&[0xA, 0xB, 0xC, 0xD]), 0xABCD);
    assert_eq!(mk_un(&[0xF, 0xF, 0xF, 0xF, 0xF, 0xF, 0xF, 0xF]), 0xFFFF_FFFF);
}

#[test]
fn u16_bytes_round_trip() {
    assert_eq!(u16_to_u8(0xABCD), [0xAB, 0xCD]);
    assert_eq!(u8_to_u16([0xAB, 0xCD]), 0xABCD);
    for v in [0u16, 1, 255, 256, 0x1234, 0xFFFF] {
        assert_eq!(u8_to_u16(u16_to_u8(v)), v);
    }
}

#[test]
fn u12_from_nibbles() {
    let v = U12::from_nibbles(0x2, 0x3, 0x4);
    assert_eq!(v.0, 0x234);
}
