use vmdk::descriptor::{Descriptor, DiskType, ExtentDescriptor, ExtentType};
use vmdk::{ExtentHeader, SectorType, Vmdk, VmdkError};

fn header_bytes(desc_offset: u64, desc_size: u64) -> Vec<u8> {
    let mut b: Vec<u8> = Vec::new();
    b.extend_from_slice(&0x564d444bu32.to_le_bytes());
    b.extend_from_slice(&1u32.to_le_bytes());
    b.extend_from_slice(&3u32.to_le_bytes());
    b.extend_from_slice(&41943040u64.to_le_bytes());
    b.extend_from_slice(&128u64.to_le_bytes());
    b.extend_from_slice(&desc_offset.to_le_bytes());
    b.extend_from_slice(&desc_size.to_le_bytes());
    b.extend_from_slice(&512u32.to_le_bytes());
    b.extend_from_slice(&21u64.to_le_bytes());
    b.extend_from_slice(&2622u64.to_le_bytes());
    b.extend_from_slice(&5248u64.to_le_bytes());
    b.extend_from_slice(&[0, b'\n', b' ', b'\r']);
    b.extend_from_slice(&0u16.to_le_bytes());
    b
}

fn image(desc_offset: u64, desc_size: u64, text: &[u8]) -> Vec<u8> {
    let mut b = header_bytes(desc_offset, desc_size);
    b.resize((desc_offset * 512) as usize, 0);
    b.extend_from_slice(text);
    b.resize(((desc_offset + desc_size) * 512) as usize, 0);
    b
}

const COURSE_DESCRIPTOR: &str = r#"# Disk DescriptorFile
version=1
CID=def0d352
parentCID=ffffffff
createType="monolithicSparse"

# Extent description
RW 41943040 SPARSE "OMS CS6250 Course VM-disk1.vmdk"

# The disk Data Base 
#DDB

ddb.virtualHWVersion = "4"
ddb.adapterType="ide"
ddb.geometry.cylinders="16383"
ddb.geometry.heads="16"
ddb.geometry.sectors="63"
ddb.geometry.biosCylinders="1024"
ddb.geometry.biosHeads="255"
ddb.geometry.biosSectors="63"
ddb.uuid.image="2ebfd8e9-9868-4688-8f3f-97e3f9def370"
ddb.uuid.parent="00000000-0000-0000-0000-000000000000"
ddb.uuid.modification="e2b662bc-16ff-478e-8b7f-3323b027087e"
ddb.uuid.parentmodification="00000000-0000-0000-0000-000000000000"
ddb.comment=""
"#;

#[test]
fn test_vmdk() {
    let file = image(1, 20, COURSE_DESCRIPTOR.as_bytes());
    let vmdk = Vmdk::new(&file).unwrap();
    assert_eq!(vmdk.extent_header.desc_size, SectorType(20));
}

#[test]
fn test_descriptor() {
    let file = image(1, 20, COURSE_DESCRIPTOR.as_bytes());
    let vmdk = Vmdk::new(&file).unwrap();
    let descriptor = r#"# Disk DescriptorFile
version=1
CID=def0d352
parentCID=ffffffff
createType="monolithicSparse"

# Extent description
RW 41943040 SPARSE "OMS CS6250 Course VM-disk1.vmdk"

# The disk Data Base 
#DDB

ddb.virtualHWVersion = "4"
ddb.adapterType="ide"
ddb.geometry.cylinders="16383"
ddb.geometry.heads="16"
ddb.geometry.sectors="63"
ddb.geometry.biosCylinders="1024"
ddb.geometry.biosHeads="255"
ddb.geometry.biosSectors="63"
ddb.uuid.image="2ebfd8e9-9868-4688-8f3f-97e3f9def370"
ddb.uuid.parent="00000000-0000-0000-0000-000000000000"
ddb.uuid.modification="e2b662bc-16ff-478e-8b7f-3323b027087e"
ddb.uuid.parentmodification="00000000-0000-0000-0000-000000000000"
ddb.comment=""
"#;
    println!("Descriptor: {}", descriptor);
    assert_eq!(vmdk.descriptor_text, descriptor);
}

#[test]
fn container_end_to_end() {
    let text = "# Disk DescriptorFile\nversion=1\nCID=def0d352\nparentCID=ffffffff\ncreateType=\"monolithicSparse\"\n\n# Extent description\nRW 41943040 SPARSE \"disk1.vmdk\"\n";
    let file = image(1, 5, text.as_bytes());
    assert_eq!(file.len(), 512 + 2560);
    assert!(file[512 + text.len()..].iter().all(|b| *b == 0));
    let vmdk = Vmdk::new(&file).unwrap();
    assert_eq!(vmdk.extent_header, ExtentHeader::new(&file).unwrap());
    assert_eq!(vmdk.extent_header.desc_offset, SectorType(1));
    assert_eq!(vmdk.extent_header.desc_size, SectorType(5));
    assert_eq!(vmdk.descriptor_text, text);
    assert_eq!(
        vmdk.descriptor,
        Descriptor {
            version: 1,
            cid: 0xdef0d352,
            parent_cid: None,
            create_type: DiskType::MonolithicSparse,
            extent_descriptors: vec![ExtentDescriptor {
                access_mode: "RW".to_string(),
                sectors: SectorType(41943040),
                extent_type: ExtentType::Sparse,
                path: "disk1.vmdk".to_string(),
            }],
        }
    );
}

#[test]
fn container_descriptor_at_another_offset() {
    let text = "# Disk DescriptorFile\nCID=10\n";
    let mut file = image(3, 2, text.as_bytes());
    for b in file[78..3 * 512].iter_mut() {
        *b = 0xff;
    }
    file.extend_from_slice(&[0x80; 700]);
    let vmdk = Vmdk::new(&file).unwrap();
    assert_eq!(vmdk.descriptor.cid, 16);
    assert_eq!(vmdk.descriptor_text, text);
}

#[test]
fn container_with_altered_magic() {
    let mut file = image(1, 1, b"# Disk DescriptorFile\n");
    file[3] = 0x57;
    assert_eq!(Vmdk::new(&file), Err(VmdkError::FormatMismatch));
}

#[test]
fn container_header_failures_come_first() {
    assert_eq!(Vmdk::new(&[]), Err(VmdkError::Truncated));
    let mut file = image(1, 1, b"# Nothing\n");
    file[4] = 2;
    assert_eq!(Vmdk::new(&file), Err(VmdkError::UnsupportedVersion));
    assert_eq!(Vmdk::new(&file[..50]), Err(VmdkError::UnsupportedVersion));
    file[4] = 1;
    assert_eq!(Vmdk::new(&file[..50]), Err(VmdkError::Truncated));
}

#[test]
fn container_descriptor_past_the_end_of_the_file() {
    let file = image(1, 2, b"# Disk DescriptorFile\n");
    assert!(Vmdk::new(&file).is_ok());
    assert_eq!(Vmdk::new(&file[..file.len() - 1]), Err(VmdkError::Io));
    assert_eq!(Vmdk::new(&file[..512]), Err(VmdkError::Io));
    assert_eq!(Vmdk::new(&file[..100]), Err(VmdkError::Io));
    assert_eq!(Vmdk::new(&header_bytes(1 << 40, 1)), Err(VmdkError::Io));
}

#[test]
fn container_range_overflow() {
    assert_eq!(Vmdk::new(&header_bytes(u64::MAX / 512 + 1, 1)), Err(VmdkError::RangeOverflow));
    assert_eq!(Vmdk::new(&header_bytes(1, u64::MAX / 512 + 1)), Err(VmdkError::RangeOverflow));
    assert_eq!(Vmdk::new(&header_bytes(u64::MAX, u64::MAX)), Err(VmdkError::RangeOverflow));
}

#[test]
fn container_descriptor_that_is_no_text() {
    let file = image(1, 1, &[b'#', b' ', 0xff, 0xfe]);
    assert_eq!(Vmdk::new(&file), Err(VmdkError::Encoding));
    let file = image(1, 1, &[0xc3]);
    assert_eq!(Vmdk::new(&file), Err(VmdkError::Encoding));
    let file = image(1, 1, &[0xed, 0xa0, 0x80]);
    assert_eq!(Vmdk::new(&file), Err(VmdkError::Encoding));
    let file = image(1, 1, &[0xc0, 0x80]);
    assert_eq!(Vmdk::new(&file), Err(VmdkError::Encoding));
}

#[test]
fn container_empty_descriptor() {
    let vmdk = Vmdk::new(&image(1, 0, b"")).unwrap();
    assert_eq!(vmdk.descriptor_text, "");
    assert_eq!(vmdk.descriptor, Descriptor::default());
    let vmdk = Vmdk::new(&image(1, 1, b"")).unwrap();
    assert_eq!(vmdk.descriptor_text, "");
    assert_eq!(vmdk.descriptor, Descriptor::default());
}

#[test]
fn container_descriptor_failure_is_handed_on() {
    let file = image(1, 1, b"# Disk DescriptorFile\n\n# Unknown section\n");
    assert_eq!(
        Vmdk::new(&file),
        Err(VmdkError::UnknownSection { label: "Unknown section".to_string() })
    );
    let file = image(1, 1, b"# Extent description\nRW 1 FLAT \"a\"\n");
    assert_eq!(
        Vmdk::new(&file),
        Err(VmdkError::InvalidEnumValue {
            raw: "FLAT".to_string(),
            enum_name: "ExtentType".to_string()
        })
    );
}

#[test]
fn extract_descriptor_strips_only_trailing_nuls() {
    assert_eq!(Vmdk::extract_descriptor(b"abc\0\0\0"), Ok("abc".to_string()));
    assert_eq!(Vmdk::extract_descriptor(b"\0abc\0d\0"), Ok("\0abc\0d".to_string()));
    assert_eq!(Vmdk::extract_descriptor(b""), Ok(String::new()));
    assert_eq!(Vmdk::extract_descriptor(b"\0\0"), Ok(String::new()));
    assert_eq!(
        Vmdk::extract_descriptor("gr\u{fc}n \u{1f600}\0".as_bytes()),
        Ok("gr\u{fc}n \u{1f600}".to_string())
    );
    assert_eq!(Vmdk::extract_descriptor(&[b'a', 0x80, 0]), Err(VmdkError::Encoding));
}

#[test]
fn from_parts_keeps_the_header() {
    let header = ExtentHeader::new(&header_bytes(7, 9)).unwrap();
    let text = "# Extent description\nRW 5 SPARSE \"caf\u{e9} disk.vmdk\"\n";
    let mut region = text.as_bytes().to_vec();
    region.resize(1024, 0);
    let vmdk = Vmdk::from_parts(header, &region).unwrap();
    assert_eq!(vmdk.extent_header, header);
    assert_eq!(vmdk.descriptor_text, text);
    assert_eq!(vmdk.descriptor.extent_descriptors[0].path, "caf\u{e9} disk.vmdk");
    assert_eq!(Vmdk::from_parts(header, &[0xff]), Err(VmdkError::Encoding));
    assert_eq!(Vmdk::from_parts(header, b"x"), Err(VmdkError::UnknownSection { label: "x".to_string() }));
}
