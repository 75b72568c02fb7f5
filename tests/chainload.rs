use kernel::chainload::{decode_size, parse_chainload_image, FramingError, BOARD_DEFAULT_LOAD_ADDRESS};

#[test]
fn size_prefix_then_payload() {
    let input = [0x04u8, 0x00, 0x00, 0x00, 0xAA, 0xBB, 0xCC, 0xDD];
    assert_eq!(decode_size(&input), 4);
    let img = parse_chainload_image(&input, BOARD_DEFAULT_LOAD_ADDRESS).unwrap();
    assert_eq!(img.load_addr, 0x8_0000);
    assert_eq!(img.payload, vec![0xAA, 0xBB, 0xCC, 0xDD]);
    assert_eq!(img.byte_address(0), 0x8_0000);
    assert_eq!(img.byte_address(3), 0x8_0003);
}

#[test]
fn size_is_little_endian() {
    assert_eq!(decode_size(&[0x01, 0x02, 0x03, 0x04]), 0x0403_0201);
    assert_eq!(decode_size(&[0xFF, 0xFF, 0xFF, 0xFF]), u32::MAX);
}

#[test]
fn trailing_bytes_are_not_payload() {
    let input = [0x02u8, 0, 0, 0, 0x11, 0x22, 0x33];
    let img = parse_chainload_image(&input, 0x1000).unwrap();
    assert_eq!(img.payload, vec![0x11, 0x22]);
}

#[test]
fn empty_image() {
    let img = parse_chainload_image(&[0, 0, 0, 0], 0x1000).unwrap();
    assert!(img.payload.is_empty());
}

#[test]
fn framing_errors() {
    assert_eq!(parse_chainload_image(&[0x04, 0x00, 0x00], 0x8_0000).err(), Some(FramingError::MissingSize));
    assert_eq!(parse_chainload_image(&[], 0x8_0000).err(), Some(FramingError::MissingSize));
    assert_eq!(
        parse_chainload_image(&[0x04, 0, 0, 0, 0xAA, 0xBB], 0x8_0000).err(),
        Some(FramingError::TruncatedPayload)
    );
    assert_eq!(
        parse_chainload_image(&[0x02, 0, 0, 0, 0xAA, 0xBB], usize::MAX - 1).err(),
        Some(FramingError::ImageTooLarge)
    );
}
