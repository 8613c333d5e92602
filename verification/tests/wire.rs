use cepack::wire::{read_u32_le, read_u32_native};

#[test]
fn read_u32_le_least_significant_byte_first() {
    let buf = [0x78u8, 0x56, 0x34, 0x12];
    assert_eq!(read_u32_le(&buf, 0), 0x1234_5678);
}

#[test]
fn read_u32_le_at_an_offset() {
    let buf = [0xAAu8, 0x01, 0x00, 0x00, 0x00, 0xBB];
    assert_eq!(read_u32_le(&buf, 1), 1);
    assert_eq!(read_u32_le(&buf, 2), 0xBB00_0000);
}

#[test]
fn read_u32_le_extremes() {
    assert_eq!(read_u32_le(&[0, 0, 0, 0], 0), 0);
    assert_eq!(read_u32_le(&[0xFF, 0xFF, 0xFF, 0xFF], 0), u32::MAX);
    assert_eq!(read_u32_le(&[0, 1, 0, 0], 0), 256);
    assert_eq!(read_u32_le(&[0, 0, 1, 0], 0), 65536);
    assert_eq!(read_u32_le(&[0, 0, 0, 1], 0), 16_777_216);
}

#[test]
fn read_u32_native_is_the_machines_order() {
    let buf = [0x78u8, 0x56, 0x34, 0x12];
    let value = read_u32_native(&buf, 0);
    assert_eq!(value, u32::from_ne_bytes(buf));
    assert!(value == 0x1234_5678 || value == 0x7856_3412);
}

#[test]
fn read_u32_native_at_an_offset() {
    let buf = [0u8, 0, 1, 2, 3, 4];
    let value = read_u32_native(&buf, 2);
    assert!(value == 0x0403_0201 || value == 0x0102_0304);
}
