//! Pipeline tests over synthetic images: load, validate, regenerate, store.

use gptkit::load;
use gptkit::store;
use gptkit::validate;
use gptkit::Gpt;
use gptkit::GptHeader;
use gptkit::GptPart;
use gptkit::LoadError;
use gptkit::ProtectiveMBR;
use gptkit::table_crc32;

fn protective_pmbr() -> ProtectiveMBR {
    let mut pmbr = ProtectiveMBR::default();
    pmbr.record.boot_indicator = 0;
    pmbr.record.os_type = 0xEE;
    pmbr.record.starting_lba = 1;
    pmbr.record.size_in_lba = 0xFFFFFFFF;
    pmbr.signature[0] = 0x55;
    pmbr.signature[1] = 0xAA;
    pmbr
}

fn linux_part(unique_fill: u8) -> GptPart {
    let mut part = GptPart::default();
    part.type_guid = vec![
        0xAF, 0x3D, 0xC6, 0x0F, 0x83, 0x84, 0x72, 0x47, 0x8E, 0x79, 0x3D, 0x69, 0xD8, 0x47, 0x7D,
        0xE4,
    ];
    part.unique_partition_guid = vec![unique_fill; 16];
    part.starting_lba = 34;
    part.ending_lba = 2048;
    part
}

/// A structurally valid table with one non-empty Linux-filesystem entry,
/// entry size 128, and both checksums freshly computed.
fn one_entry_gpt() -> Gpt {
    let mut header = GptHeader::default();
    header.signature = b"EFI PART".to_vec();
    header.revision_major = 1;
    header.header_size = 92;
    header.current_lba = 1;
    header.backup_lba = 6;
    header.first_usable_lba = 3;
    header.last_usable_lba = 2048;
    header.disk_guid = (1u8..=16).collect();
    header.partition_entry_lba = 2;
    header.partition_entries = 1;
    header.partition_entry_size = 128;
    let mut gpt = Gpt { pmbr: protective_pmbr(), header, parts: vec![linux_part(0x42)] };
    gpt.header.partition_entry_crc32 = table_crc32(&gpt.parts);
    gpt.header.header_crc32 = gpt.header.crc32_self();
    gpt
}

#[test]
fn load_reports_too_short_input() {
    assert!(matches!(load(&[]), Err(LoadError::TooShort)));
    assert!(matches!(load(&vec![0u8; 1023]), Err(LoadError::TooShort)));
    // 1024 zero bytes declare zero entries: loadable, though nothing
    // validates.
    let gpt = load(&vec![0u8; 1024]).unwrap();
    assert_eq!(gpt.parts.len(), 0);
    let findings = validate(&gpt);
    assert!(!findings.pmbr_signature_ok);
    assert!(!findings.header_signature_ok);
    assert!(!findings.header_size_ok);
    assert!(!findings.header_crc_ok);
    // Zero is the correct checksum of an empty entry array.
    assert!(findings.table_crc_ok);
}

#[test]
fn load_reports_entry_size_too_small() {
    let mut image = store(&one_entry_gpt());
    image[596] = 127; // declared entry size, little-endian low byte
    image[597] = 0;
    assert!(matches!(load(&image), Err(LoadError::EntrySizeTooSmall)));
}

#[test]
fn load_reports_truncated_entry_array() {
    let image = store(&one_entry_gpt());
    assert!(matches!(load(&image[..image.len() - 1]), Err(LoadError::TooShort)));
}

#[test]
fn load_then_store_is_byte_identical() {
    let image = store(&one_entry_gpt());
    let gpt = load(&image).unwrap();
    assert_eq!(store(&gpt), image);
}

#[test]
fn load_then_store_with_wide_entry_stride() {
    let mut gpt = one_entry_gpt();
    gpt.parts.push(linux_part(0x51));
    gpt.parts.push(GptPart::default());
    gpt.header.partition_entries = 3;
    gpt.header.partition_entry_size = 256;
    gpt.header.partition_entry_crc32 = table_crc32(&gpt.parts);
    gpt.header.header_crc32 = gpt.header.crc32_self();
    let image = store(&gpt);
    assert_eq!(image.len(), 1024 + 3 * 256);
    let reloaded = load(&image).unwrap();
    assert_eq!(reloaded.parts.len(), 3);
    assert!(validate(&reloaded).all_valid());
    assert_eq!(store(&reloaded), image);
}

#[test]
fn validate_reports_all_findings_valid() {
    let image = store(&one_entry_gpt());
    let gpt = load(&image).unwrap();
    let findings = validate(&gpt);
    assert!(findings.pmbr_signature_ok);
    assert!(findings.header_signature_ok);
    assert!(findings.header_size_ok);
    assert!(findings.header_crc_ok);
    assert!(findings.table_crc_ok);
    assert!(findings.all_valid());
}

#[test]
fn validate_reports_stale_checksums() {
    let mut gpt = one_entry_gpt();
    gpt.parts[0].starting_lba += 1; // stale entry-array checksum
    gpt.header.backup_lba += 1; // stale header checksum
    let findings = validate(&gpt);
    assert!(findings.pmbr_signature_ok);
    assert!(findings.header_signature_ok);
    assert!(findings.header_size_ok);
    assert!(!findings.header_crc_ok);
    assert!(!findings.table_crc_ok);
    assert!(!findings.all_valid());
}

#[test]
fn header_size_mismatch_is_a_finding_not_an_abort() {
    let mut gpt = one_entry_gpt();
    gpt.header.header_size = 91;
    gpt.header.header_crc32 = gpt.header.crc32_self();
    let image = store(&gpt);
    // The mismatched declared size does not stop the load; the entry array
    // is still read in full.
    let reloaded = load(&image).unwrap();
    assert_eq!(reloaded.parts.len(), 1);
    assert!(!reloaded.parts[0].is_empty());
    let findings = validate(&reloaded);
    assert!(!findings.header_size_ok);
    assert!(findings.pmbr_signature_ok);
    assert!(findings.header_signature_ok);
    assert!(findings.header_crc_ok);
    assert!(findings.table_crc_ok);
}

#[test]
fn regenerate_identities_end_to_end() {
    let mut gpt = one_entry_gpt();
    gpt.parts.push(GptPart::default()); // an empty sibling
    gpt.parts.push(linux_part(0x9C));
    gpt.header.partition_entries = 3;
    gpt.header.partition_entry_crc32 = table_crc32(&gpt.parts);
    gpt.header.header_crc32 = gpt.header.crc32_self();
    let original = store(&gpt);

    let mut reloaded = load(&original).unwrap();
    let disk_guid = vec![0xD1u8; 16];
    let part_guids = vec![vec![0xA1u8; 16], vec![0xA2u8; 16], vec![0xA3u8; 16]];
    reloaded.regenerate_identities(disk_guid, &part_guids);

    // The disk GUID and every non-empty entry's unique GUID are replaced;
    // the empty entry stays empty, and type GUIDs are untouched.
    assert_eq!(reloaded.header.disk_guid, vec![0xD1u8; 16]);
    assert_eq!(reloaded.parts[0].unique_partition_guid, vec![0xA1u8; 16]);
    assert_ne!(reloaded.parts[0].unique_partition_guid, vec![0x42u8; 16]);
    assert!(reloaded.parts[1].is_empty());
    assert_eq!(reloaded.parts[2].unique_partition_guid, vec![0xA3u8; 16]);
    assert_eq!(reloaded.parts[0].type_guid, gpt.parts[0].type_guid);
    assert_ne!(
        reloaded.parts[0].unique_partition_guid,
        reloaded.parts[2].unique_partition_guid
    );

    // Both checksums validate against the mutated content.
    let findings = validate(&reloaded);
    assert!(findings.all_valid());

    // Stored and reloaded, the image is structurally valid and carries the
    // new identity.
    let rewritten = store(&reloaded);
    assert_ne!(rewritten, original);
    let end = load(&rewritten).unwrap();
    assert!(validate(&end).all_valid());
    assert_ne!(
        end.parts[0].unique_partition_guid,
        vec![0x42u8; 16]
    );
}
