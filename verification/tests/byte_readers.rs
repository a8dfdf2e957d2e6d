use svs_reader::utils::{read_be_u16, read_be_u32, read_be_u32_mut, read_le_u16, read_le_u32};

#[test]
fn little_endian_readers() {
    assert_eq!(read_le_u16(&[42, 0]), 42);
    assert_eq!(read_le_u16(&[1, 1]), 257);
    assert_eq!(read_le_u32(&[1, 1, 0, 0]), 257);
    assert_eq!(read_le_u32(&[0, 0, 0, 1]), 16777216);
    // only the leading bytes are read
    assert_eq!(read_le_u32(&[4, 0, 0, 0, 99, 99]), 4);
}

#[test]
fn big_endian_readers() {
    assert_eq!(read_be_u16(&[1, 1]), 257);
    assert_eq!(read_be_u16(&[0, 42]), 42);
    assert_eq!(read_be_u32(&[0, 0, 1, 1]), 257);
    assert_eq!(read_be_u32(&[1, 0, 0, 0]), 16777216);
}

#[test]
fn advancing_reader_consumes_four_bytes() {
    let bytes: [u8; 10] = [0, 0, 0, 1, 0, 0, 0, 2, 42, 43];
    let mut input: &[u8] = &bytes;
    assert_eq!(read_be_u32_mut(&mut input), 1);
    assert_eq!(read_be_u32_mut(&mut input), 2);
    assert_eq!(input, &[42, 43]);
}
