use treadmill::wire::{
    i16_from_le, i16_to_le, u16_from_le, u16_to_le, u24_from_le, u32_low3_to_le,
};

#[test]
fn u16_reads_low_byte_first() {
    assert_eq!(u16_from_le(0xD2, 0x04), 1234);
    assert_eq!(u16_from_le(0x00, 0x01), 256);
    assert_eq!(u16_from_le(0x01, 0x00), 1);
    assert_eq!(u16_from_le(0xFF, 0xFF), 65535);
}

#[test]
fn i16_reads_twos_complement() {
    assert_eq!(i16_from_le(0xFF, 0xFF), -1);
    assert_eq!(i16_from_le(0x00, 0x80), -32768);
    assert_eq!(i16_from_le(0xFF, 0x7F), 32767);
    assert_eq!(i16_from_le(0x9C, 0xFF), -100);
    assert_eq!(i16_from_le(0x00, 0x00), 0);
}

#[test]
fn u24_reads_three_bytes() {
    assert_eq!(u24_from_le(0x01, 0x02, 0x03), 0x030201);
    assert_eq!(u24_from_le(0xFF, 0xFF, 0xFF), 16_777_215);
    assert_eq!(u24_from_le(0x00, 0x00, 0x00), 0);
}

#[test]
fn writes_match_the_standard_layout() {
    for value in [0u16, 1, 255, 256, 1234, 0x8000, 65535] {
        let bytes = value.to_le_bytes();
        assert_eq!(u16_to_le(value), (bytes[0], bytes[1]));
        assert_eq!(u16_from_le(bytes[0], bytes[1]), value);
    }
    for value in [0i16, 1, -1, -2, 255, -256, i16::MIN, i16::MAX] {
        let bytes = value.to_le_bytes();
        assert_eq!(i16_to_le(value), (bytes[0], bytes[1]));
        assert_eq!(i16_from_le(bytes[0], bytes[1]), value);
    }
    for value in [0u32, 1, 0x030201, 0x00FF_FFFF, 0x0100_0000, 0xDEAD_BEEF, u32::MAX] {
        let bytes = value.to_le_bytes();
        assert_eq!(u32_low3_to_le(value), (bytes[0], bytes[1], bytes[2]));
        assert_eq!(u24_from_le(bytes[0], bytes[1], bytes[2]), value % 0x0100_0000);
    }
}

#[test]
fn every_u16_round_trips() {
    for value in 0..=u16::MAX {
        let (lo, hi) = u16_to_le(value);
        assert_eq!(u16_from_le(lo, hi), value);
        let signed = value as i16;
        let (lo, hi) = i16_to_le(signed);
        assert_eq!(i16_from_le(lo, hi), signed);
    }
}
