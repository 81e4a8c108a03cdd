//! Record-level tests: struct sizes on the wire, CRC32 check vector, GUID
//! formatting, and the text representations.

use gptkit::crc32;
use gptkit::guid_to_string;
use gptkit::GptHeader;
use gptkit::GptPart;
use gptkit::ProtectiveMBR;
use gptkit::table_crc32;

#[test]
fn gpt_struct_sizes() {
    assert_eq!(ProtectiveMBR::default().encode().len(), 512);
    assert_eq!(GptHeader::default().encode().len(), 92);
    assert_eq!(GptPart::default().encode().len(), 128);
}

#[test]
fn boot_code_repr() {
    let pmbr = ProtectiveMBR::default();
    assert_eq!(pmbr.boot_code_repr(), "[Zero]");

    let mut pmbr = ProtectiveMBR::default();
    pmbr.boot_code[0] = 0x01;
    pmbr.boot_code[1] = 0x23;
    pmbr.boot_code[2] = 0xAB;
    pmbr.boot_code[3] = 0xEF;
    assert_eq!(pmbr.boot_code_repr(), "[01 23 AB EF ...]");

    let mut pmbr = ProtectiveMBR::default();
    pmbr.boot_code[4] = 0x01;
    assert_eq!(pmbr.boot_code_repr(), "[00 00 00 00 ...]");
}

#[test]
fn crc32_zlib() {
    let check_input: &[u8] = b"123456789";
    assert_eq!(crc32(check_input), 0xCBF43926);
}

#[test]
fn crc32_empty_input() {
    assert_eq!(crc32(&[]), 0);
}

#[test]
fn guid_to_string_zero() {
    let guid = [0u8; 16];
    assert_eq!(guid_to_string(&guid), "00000000-0000-0000-0000-000000000000");
}

#[test]
fn guid_to_string_mixed_endian() {
    // On-disk bytes of the EFI System Partition type GUID: the first three
    // groups are stored little-endian, the last two big-endian.
    let guid: [u8; 16] = [
        0x28, 0x73, 0x2A, 0xC1, 0x1F, 0xF8, 0xD2, 0x11, 0xBA, 0x4B, 0x00, 0xA0, 0xC9, 0x3E, 0xC9,
        0x3B,
    ];
    assert_eq!(guid_to_string(&guid), "c12a7328-f81f-11d2-ba4b-00a0c93ec93b");
}

#[test]
fn pmbr_signature() {
    let mut pmbr = ProtectiveMBR::default();
    assert!(!pmbr.valid_signature());
    assert_eq!(pmbr.signature_repr(), "[00 00] invalid");
    pmbr.signature[0] = 0x55;
    pmbr.signature[1] = 0xAA;
    assert!(pmbr.valid_signature());
    assert_eq!(pmbr.signature_repr(), "[55 AA] valid");
    // Swapped bytes are not a valid signature.
    pmbr.signature[0] = 0xAA;
    pmbr.signature[1] = 0x55;
    assert!(!pmbr.valid_signature());
    assert_eq!(pmbr.signature_repr(), "[AA 55] invalid");
}

#[test]
fn pmbr_os_type_repr() {
    let mut pmbr = ProtectiveMBR::default();
    pmbr.record.os_type = 0xEE;
    assert_eq!(pmbr.os_type_repr(), "GPT Protective (0xEE)");
    pmbr.record.os_type = 0x83;
    assert_eq!(pmbr.os_type_repr(), "Unknown (0x83)");
    pmbr.record.os_type = 0x00;
    assert_eq!(pmbr.os_type_repr(), "Unknown (0x00)");
}

#[test]
fn pmbr_parse_encode_roundtrip() {
    let mut bytes = vec![0u8; 512];
    for (i, b) in bytes.iter_mut().enumerate() {
        *b = (i % 251) as u8;
    }
    let pmbr = ProtectiveMBR::parse(&bytes);
    assert_eq!(pmbr.encode(), bytes);
}

#[test]
fn pmbr_record_fields_decoded() {
    let mut bytes = vec![0u8; 512];
    bytes[446] = 0x80; // boot indicator
    bytes[450] = 0xEE; // OS type
    bytes[454] = 0x01; // starting LBA, little-endian 1
    // size in LBA, saturated to 0xFFFFFFFF
    bytes[458] = 0xFF;
    bytes[459] = 0xFF;
    bytes[460] = 0xFF;
    bytes[461] = 0xFF;
    let pmbr = ProtectiveMBR::parse(&bytes);
    assert_eq!(pmbr.record.boot_indicator, 0x80);
    assert_eq!(pmbr.record.os_type, 0xEE);
    assert_eq!(pmbr.record.starting_lba, 1);
    assert_eq!(pmbr.record.size_in_lba, 0xFFFFFFFF);
}

#[test]
fn header_parse_encode_roundtrip() {
    let mut bytes = vec![0u8; 92];
    for (i, b) in bytes.iter_mut().enumerate() {
        *b = (7 + i * 13 % 256) as u8;
    }
    let header = GptHeader::parse(&bytes);
    assert_eq!(header.encode(), bytes);
}

#[test]
fn header_fields_decoded() {
    let mut bytes = vec![0u8; 92];
    bytes[..8].copy_from_slice(b"EFI PART");
    bytes[10] = 0x01; // major revision 1
    bytes[12] = 92; // header size
    bytes[24] = 0x01; // current LBA 1
    bytes[80] = 0x04; // 4 partition entries
    bytes[84] = 0x80; // entry size 128
    let header = GptHeader::parse(&bytes);
    assert!(header.is_signature_valid());
    assert_eq!(header.revision_major, 1);
    assert_eq!(header.revision_minor, 0);
    assert_eq!(header.header_size, 92);
    assert_eq!(header.current_lba, 1);
    assert_eq!(header.partition_entries, 4);
    assert_eq!(header.partition_entry_size, 128);
    assert_eq!(header.header_size_repr(), "92 (valid)");

    let mut header = header;
    header.header_size = 91;
    assert_eq!(header.header_size_repr(), "91 (invalid)");
    header.signature[0] = 0x00;
    assert!(!header.is_signature_valid());
}

#[test]
fn header_crc32_self_matches_manual_computation() {
    let mut bytes = vec![0u8; 92];
    bytes[..8].copy_from_slice(b"EFI PART");
    bytes[16] = 0xDE; // stored checksum, ignored by the computation
    bytes[17] = 0xAD;
    let header = GptHeader::parse(&bytes);
    let mut zeroed = bytes.clone();
    zeroed[16] = 0;
    zeroed[17] = 0;
    zeroed[18] = 0;
    zeroed[19] = 0;
    assert_eq!(header.crc32_self(), crc32(&zeroed));
    // The stored field plays no part in the computation.
    let plain = GptHeader::parse(&zeroed);
    assert_eq!(plain.crc32_self(), header.crc32_self());
}

#[test]
fn part_parse_encode_roundtrip() {
    let mut bytes = vec![0u8; 128];
    for (i, b) in bytes.iter_mut().enumerate() {
        *b = (i * 31 % 256) as u8;
    }
    let part = GptPart::parse(&bytes);
    assert_eq!(part.encode(), bytes);
}

#[test]
fn part_is_empty() {
    let part = GptPart::default();
    assert!(part.is_empty());

    let mut part = GptPart::default();
    part.type_guid[0] = 1;
    assert!(!part.is_empty());

    let mut part = GptPart::default();
    part.unique_partition_guid[15] = 1;
    assert!(!part.is_empty());

    // LBA fields and name play no part in emptiness.
    let mut part = GptPart::default();
    part.starting_lba = 34;
    part.ending_lba = 2048;
    part.name[0] = b'x';
    assert!(part.is_empty());
}

#[test]
fn part_type_repr_known_and_unknown() {
    let mut part = GptPart::default();
    part.type_guid = vec![
        0xAF, 0x3D, 0xC6, 0x0F, 0x83, 0x84, 0x72, 0x47, 0x8E, 0x79, 0x3D, 0x69, 0xD8, 0x47, 0x7D,
        0xE4,
    ];
    assert_eq!(part.part_type_repr(), "Linux filesystem data");
    part.type_guid = vec![
        0x28, 0x73, 0x2A, 0xC1, 0x1F, 0xF8, 0xD2, 0x11, 0xBA, 0x4B, 0x00, 0xA0, 0xC9, 0x3E, 0xC9,
        0x3B,
    ];
    assert_eq!(part.part_type_repr(), "EFI System Partition");
    part.type_guid = vec![9u8; 16];
    assert_eq!(part.part_type_repr(), "Unknown");
    let zero = GptPart::default();
    assert_eq!(zero.part_type_repr(), "Unknown");
}

fn sample_part(fill: u8) -> GptPart {
    let mut part = GptPart::default();
    part.type_guid = vec![fill; 16];
    part.unique_partition_guid = vec![fill.wrapping_add(1); 16];
    part.starting_lba = fill as u64;
    part.ending_lba = fill as u64 + 100;
    part
}

#[test]
fn table_crc32_is_order_sensitive() {
    let a = sample_part(1);
    let b = sample_part(2);
    let forward = table_crc32(&vec![sample_part(1), sample_part(2)]);
    let backward = table_crc32(&vec![sample_part(2), sample_part(1)]);
    assert_ne!(forward, backward);

    // And it agrees with the CRC32 of the concatenated encodings.
    let mut joined = a.encode();
    joined.extend(b.encode());
    assert_eq!(forward, crc32(&joined));
}

#[test]
fn table_crc32_of_no_entries() {
    assert_eq!(table_crc32(&Vec::new()), crc32(&[]));
}
