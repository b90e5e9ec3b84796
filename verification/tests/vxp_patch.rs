use cargo_mre::bytes::{read_u32, write_u32};
use cargo_mre::vxp::{patch_vxp, try_patch_vxp, PatchError};

fn le(v: u32) -> Vec<u8> {
    v.to_le_bytes().to_vec()
}

/// An image: `prefix`, then the tags, then an end tag, then the trailer
/// pointing at the table.
fn image(prefix: &[u8], tags: &[(u32, Vec<u8>)]) -> Vec<u8> {
    let mut out = prefix.to_vec();
    let table = out.len() as u32;
    for (id, value) in tags {
        out.extend(le(*id));
        out.extend(le(value.len() as u32));
        out.extend(value);
    }
    out.extend(le(0));
    out.extend(le(table));
    out.extend([0xAA; 8]);
    out
}

#[test]
fn read_u32_is_little_endian() {
    let data = [0x78, 0x56, 0x34, 0x12, 0xff];
    assert_eq!(read_u32(&data, 0), 0x1234_5678);
    assert_eq!(read_u32(&data, 1), 0xff12_3456);
}

#[test]
fn write_u32_stores_little_endian_and_nothing_else() {
    let mut data = [9u8; 8];
    write_u32(&mut data, 2, 0xA1B2_C3D4);
    assert_eq!(data, [9, 9, 0xD4, 0xC3, 0xB2, 0xA1, 9, 9]);
}

#[test]
fn read_after_write_gives_value() {
    let mut data = vec![0u8; 16];
    for (at, v) in [(0usize, 0u32), (5, u32::MAX), (12, 0x0102_0304), (3, 256)] {
        write_u32(&mut data, at, v);
        assert_eq!(read_u32(&data, at), v);
    }
}

#[test]
fn masked_tag_gets_four_ff_bytes() {
    let data = image(b"HDR!", &[(2, vec![1, 2, 3, 4, 5])]);
    let out = patch_vxp(data.clone(), "001010123456789");
    let expected = image(b"HDR!", &[(2, vec![0xff, 0xff, 0xff, 0xff, 5])]);
    assert_eq!(out, expected);
}

#[test]
fn imsi_tag_is_replaced_and_its_length_updated() {
    let data = image(b"XY", &[(0x12, b"abc".to_vec()), (7, vec![1, 2])]);
    let out = patch_vxp(data, "123");
    let expected = image(b"XY", &[(0x12, b"9123".to_vec()), (7, vec![1, 2])]);
    assert_eq!(out, expected);
}

#[test]
fn imsi_tag_can_shrink() {
    let data = image(b"", &[(0x12, b"0123456789abcdef".to_vec()), (2, vec![0, 0, 0, 0])]);
    let out = patch_vxp(data, "42");
    let expected = image(b"", &[(0x12, b"942".to_vec()), (2, vec![0xff; 4])]);
    assert_eq!(out, expected);
}

#[test]
fn both_tags_and_other_tags() {
    let data = image(
        b"ELF-ish",
        &[(5, vec![7; 3]), (2, vec![1; 6]), (0x12, b"000000000000000".to_vec()), (9, vec![])],
    );
    let out = patch_vxp(data, "460001234567890");
    let expected = image(
        b"ELF-ish",
        &[
            (5, vec![7; 3]),
            (2, vec![0xff, 0xff, 0xff, 0xff, 1, 1]),
            (0x12, b"9460001234567890".to_vec()),
            (9, vec![]),
        ],
    );
    assert_eq!(out, expected);
}

#[test]
fn zero_length_tags_are_skipped() {
    let data = image(b"..", &[(2, vec![]), (0x12, vec![]), (3, vec![8])]);
    let out = patch_vxp(data.clone(), "1");
    assert_eq!(out, data);
}

#[test]
fn empty_table_leaves_image_unchanged() {
    let data = image(b"payload", &[]);
    assert_eq!(patch_vxp(data.clone(), "123"), data);
}

#[test]
fn table_offset_past_end_leaves_image_unchanged() {
    let mut data = vec![1u8, 2, 3, 4];
    data.extend(le(1000));
    data.extend([0; 8]);
    assert_eq!(patch_vxp(data.clone(), "9"), data);
}

#[test]
fn short_image_is_refused() {
    assert_eq!(try_patch_vxp(vec![0; 11], "1"), Err(PatchError::TooShort));
    assert!(try_patch_vxp(vec![0; 12], "1").is_ok());
}

#[test]
fn truncated_tag_header_is_refused() {
    // the table starts two bytes before the end: no room for an id
    let mut data = vec![0u8; 14];
    data[2..6].copy_from_slice(&le(12));
    data[12] = 1;
    assert_eq!(try_patch_vxp(data, "1"), Err(PatchError::TagHeaderTruncated));
    // an id but no room for its length field
    let mut data = vec![0u8; 16];
    data[4..8].copy_from_slice(&le(10));
    data[10..14].copy_from_slice(&le(7));
    assert_eq!(try_patch_vxp(data, "1"), Err(PatchError::TagHeaderTruncated));
}

#[test]
fn field_out_of_bounds_is_refused() {
    // an IMSI tag that claims more bytes than the image holds
    let mut data = image(b"", &[(0x12, b"abc".to_vec())]);
    data[4..8].copy_from_slice(&le(100));
    assert_eq!(try_patch_vxp(data, "1"), Err(PatchError::FieldOutOfBounds));
    // a masked tag whose value starts at the very end of the image
    let mut data = vec![0u8; 18];
    data[6..10].copy_from_slice(&le(10));
    data[10..14].copy_from_slice(&le(2));
    data[14..18].copy_from_slice(&le(1));
    assert_eq!(try_patch_vxp(data, "1"), Err(PatchError::FieldOutOfBounds));
}

#[test]
fn other_tag_running_past_the_end_ends_the_walk() {
    let mut data = image(b"", &[(5, vec![1, 2])]);
    data[4..8].copy_from_slice(&le(1_000_000));
    assert_eq!(try_patch_vxp(data.clone(), "1"), Ok(data));
}

#[test]
fn bytes_before_the_table_are_kept() {
    let prefix = b"some code and data before the tag table";
    let data = image(prefix, &[(2, vec![1; 4]), (0x12, b"x".to_vec())]);
    let out = patch_vxp(data, "310150123456789");
    assert_eq!(&out[..prefix.len()], &prefix[..]);
}

#[test]
fn try_patch_agrees_with_patch() {
    let data = image(b"abc", &[(0x12, b"1".to_vec()), (2, vec![3; 8])]);
    assert_eq!(try_patch_vxp(data.clone(), "77"), Ok(patch_vxp(data, "77")));
}

#[test]
fn patching_twice_equals_patching_once() {
    let data = image(
        b"code",
        &[(5, vec![7; 3]), (2, vec![1; 6]), (0x12, b"000000000000000".to_vec()), (0x12, b"x".to_vec())],
    );
    let once = patch_vxp(data.clone(), "460001234567890");
    let twice = patch_vxp(once.clone(), "460001234567890");
    assert_eq!(twice, once);
    assert_eq!(&once[once.len() - 12..], &data[data.len() - 12..]);
}
