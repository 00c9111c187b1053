use vmdk::endian::{u16_at, u32_at, u64_at};
use vmdk::header::{EXTENT_MAGIC, EXTENT_VERSION, HEADER_LEN};
use vmdk::{ExtentHeader, SectorType, VmdkError};

fn sample_header() -> Vec<u8> {
    let mut b: Vec<u8> = Vec::new();
    b.extend_from_slice(&[0x4b, 0x44, 0x4d, 0x56]); // magic
    b.extend_from_slice(&[0x01, 0x00, 0x00, 0x00]); // version
    b.extend_from_slice(&[0x03, 0x00, 0x01, 0x00]); // flags
    b.extend_from_slice(&[0x00, 0x00, 0x80, 0x02, 0x00, 0x00, 0x00, 0x00]); // capacity
    b.extend_from_slice(&[0x80, 0x00, 0x00, 0x00, 0x00, 0x00, 0x00, 0x00]); // grain size
    b.extend_from_slice(&[0x01, 0x00, 0x00, 0x00, 0x00, 0x00, 0x00, 0x00]); // descriptor offset
    b.extend_from_slice(&[0x14, 0x00, 0x00, 0x00, 0x00, 0x00, 0x00, 0x00]); // descriptor size
    b.extend_from_slice(&[0x00, 0x02, 0x00, 0x00]); // entries per grain table
    b.extend_from_slice(&[0x15, 0x00, 0x00, 0x00, 0x00, 0x00, 0x00, 0x00]); // redundant directory
    b.extend_from_slice(&[0x3e, 0x0a, 0x00, 0x00, 0x00, 0x00, 0x00, 0x00]); // directory
    b.extend_from_slice(&[0x08, 0x07, 0x06, 0x05, 0x04, 0x03, 0x02, 0x01]); // overhead
    b.extend_from_slice(&[0x01, 0x0a, 0x20, 0x0d]); // dirty, eol markers
    b.extend_from_slice(&[0x34, 0x12]); // compression
    b
}

#[test]
fn header_decodes_every_field() {
    let bytes = sample_header();
    assert_eq!(bytes.len(), HEADER_LEN);
    let h = ExtentHeader::new(&bytes).unwrap();
    assert_eq!(h.magic_number, 0x564d444b);
    assert_eq!(h.magic_number, EXTENT_MAGIC);
    assert_eq!(h.version, 1);
    assert_eq!(h.version, EXTENT_VERSION);
    assert_eq!(h.flags, 0x0001_0003);
    assert_eq!(h.capacity, SectorType(41943040));
    assert_eq!(h.grain_size, SectorType(128));
    assert_eq!(h.desc_offset, SectorType(1));
    assert_eq!(h.desc_size, SectorType(20));
    assert_eq!(h.gtes_per_gt, 512);
    assert_eq!(h.rgd_offset, SectorType(21));
    assert_eq!(h.gd_offset, SectorType(2622));
    assert_eq!(h.overhead, SectorType(0x0102_0304_0506_0708));
    assert_eq!(h.dirty_shutdown, 1);
    assert_eq!(h.single_eol_char, 0x0a);
    assert_eq!(h.non_eol_char, 0x20);
    assert_eq!(h.dbl_eol_char, 0x0d);
    assert_eq!(h.compress_method, 0x1234);
}

#[test]
fn header_leaves_the_padding_unread() {
    let mut bytes = sample_header();
    let bare = ExtentHeader::new(&bytes).unwrap();
    bytes.resize(512, 0xee);
    assert_eq!(ExtentHeader::new(&bytes), Ok(bare));
}

#[test]
fn header_keeps_the_signature() {
    let h = ExtentHeader::new(&sample_header()).unwrap();
    assert_eq!(h.magic_number.to_le_bytes(), [b'K', b'D', b'M', b'V']);
}

#[test]
fn header_with_altered_magic_is_a_format_mismatch() {
    for at in 0..4 {
        let mut bytes = sample_header();
        bytes[at] ^= 0x01;
        assert_eq!(ExtentHeader::new(&bytes), Err(VmdkError::FormatMismatch));
    }
    let mut bytes = sample_header();
    bytes[0..4].copy_from_slice(&[0x56, 0x4d, 0x44, 0x4b]);
    assert_eq!(ExtentHeader::new(&bytes), Err(VmdkError::FormatMismatch));
}

#[test]
fn header_with_wrong_magic_reads_no_further_field() {
    // Only the four bytes of a wrong signature: the mismatch is reported,
    // not the missing rest.
    assert_eq!(ExtentHeader::new(&[0, 1, 2, 3]), Err(VmdkError::FormatMismatch));
    let mut bytes = sample_header();
    bytes[0] = 0;
    bytes[4] = 9;
    assert_eq!(ExtentHeader::new(&bytes), Err(VmdkError::FormatMismatch));
}

#[test]
fn header_with_other_version_is_unsupported() {
    for version in [0u8, 2, 3] {
        let mut bytes = sample_header();
        bytes[4] = version;
        assert_eq!(ExtentHeader::new(&bytes), Err(VmdkError::UnsupportedVersion));
    }
    let mut bytes = sample_header();
    bytes[7] = 1;
    assert_eq!(ExtentHeader::new(&bytes), Err(VmdkError::UnsupportedVersion));
    // The version is judged before the rest is asked for.
    assert_eq!(
        ExtentHeader::new(&[0x4b, 0x44, 0x4d, 0x56, 2, 0, 0, 0]),
        Err(VmdkError::UnsupportedVersion)
    );
}

#[test]
fn header_that_ends_early_is_truncated() {
    let bytes = sample_header();
    for len in 0..HEADER_LEN {
        assert_eq!(ExtentHeader::new(&bytes[..len]), Err(VmdkError::Truncated), "length {}", len);
    }
    assert!(ExtentHeader::new(&bytes[..HEADER_LEN]).is_ok());
}

#[test]
fn little_endian_reads() {
    let b = [0x01u8, 0x02, 0x03, 0x04, 0x05, 0x06, 0x07, 0x08, 0x09];
    assert_eq!(u16_at(&b, 0), Some(0x0201));
    assert_eq!(u16_at(&b, 7), Some(0x0908));
    assert_eq!(u16_at(&b, 8), None);
    assert_eq!(u32_at(&b, 0), Some(0x0403_0201));
    assert_eq!(u32_at(&b, 5), Some(0x0908_0706));
    assert_eq!(u32_at(&b, 6), None);
    assert_eq!(u64_at(&b, 0), Some(0x0807_0605_0403_0201));
    assert_eq!(u64_at(&b, 1), Some(0x0908_0706_0504_0302));
    assert_eq!(u64_at(&b, 2), None);
    assert_eq!(u64_at(&b, usize::MAX), None);
    assert_eq!(u32_at(&[], 0), None);
}

#[test]
fn sectors_to_bytes() {
    assert_eq!(SectorType::new(5).sectors(), 5);
    assert_eq!(SectorType(0).byte_offset(), Ok(0));
    assert_eq!(SectorType(1).byte_offset(), Ok(512));
    assert_eq!(SectorType(5).byte_len(), Ok(2560));
    assert_eq!(SectorType(41943040).byte_offset(), Ok(21474836480));
    let last = u64::MAX / 512;
    assert_eq!(SectorType(last).byte_offset(), Ok(last * 512));
    assert_eq!(SectorType(last + 1).byte_offset(), Err(VmdkError::RangeOverflow));
    assert_eq!(SectorType(u64::MAX).byte_offset(), Err(VmdkError::RangeOverflow));
    let longest = (usize::MAX / 512) as u64;
    assert_eq!(SectorType(longest).byte_len(), Ok((longest * 512) as usize));
    assert_eq!(SectorType(longest + 1).byte_len(), Err(VmdkError::RangeOverflow));
    assert_eq!(SectorType(u64::MAX).byte_len(), Err(VmdkError::RangeOverflow));
}

#[test]
fn descriptor_range_of_a_header() {
    let mut h = ExtentHeader::new(&sample_header()).unwrap();
    assert_eq!(h.descriptor_range(), Ok((512, 10240)));
    h.desc_offset = SectorType(u64::MAX / 512 + 1);
    assert_eq!(h.descriptor_range(), Err(VmdkError::RangeOverflow));
    h.desc_offset = SectorType(1);
    h.desc_size = SectorType(u64::MAX / 2);
    assert_eq!(h.descriptor_range(), Err(VmdkError::RangeOverflow));
}
