//! Protective Master Boot Record: a fixed 512-byte block at offset 0 that
//! marks the disk as GPT-partitioned for legacy tools. The block holds
//! 440 bytes of boot code, a 4-byte disk signature, 2 reserved bytes, one
//! decoded partition record (the GPT-protective entry), three raw 16-byte
//! record slots, and the 2-byte boot signature `0x55 0xAA`.

use vstd::prelude::*;
use vstd::bytes::*;
use vstd::slice::slice_subrange;

use vstd::string::StringExecFns;

use crate::util::{all_zero, append_bytes, append_hex_byte_upper, byte_hex_upper, bytes_to_vec, is_all_zero, zero_bytes, zeroed_vec};

verus! {

// ---------------------------------------------------------------------------
// Data model
// ---------------------------------------------------------------------------

/// One 16-byte MBR partition record, with its LBA fields decoded as
/// little-endian 32-bit integers.
pub struct MbrPartitionRecord {
    pub boot_indicator: u8,
    /// 3 bytes of starting cylinder/head/sector address, kept raw.
    pub starting_chs: Vec<u8>,
    /// OS type byte; `0xEE` marks the GPT-protective record.
    pub os_type: u8,
    /// 3 bytes of ending cylinder/head/sector address, kept raw.
    pub ending_chs: Vec<u8>,
    pub starting_lba: u32,
    pub size_in_lba: u32,
}

/// Mathematical model of an MBR partition record.
#[verifier::ext_equal]
pub ghost struct MbrRecordView {
    pub boot_indicator: u8,
    pub starting_chs: Seq<u8>,
    pub os_type: u8,
    pub ending_chs: Seq<u8>,
    pub starting_lba: u32,
    pub size_in_lba: u32,
}

/// The 512-byte Protective MBR block.
pub struct ProtectiveMBR {
    pub boot_code: Vec<u8>,
    pub disk_signature: Vec<u8>,
    pub reserved: Vec<u8>,
    /// The first partition record, decoded; for a GPT disk it covers the
    /// whole disk with OS type `0xEE`.
    pub record: MbrPartitionRecord,
    /// The remaining three 16-byte record slots, kept raw (zero on a
    /// well-formed GPT disk).
    pub rest_records: Vec<u8>,
    /// The 2-byte boot signature; `0x55 0xAA` when valid.
    pub signature: Vec<u8>,
}

/// Mathematical model of a Protective MBR block.
#[verifier::ext_equal]
pub ghost struct MbrView {
    pub boot_code: Seq<u8>,
    pub disk_signature: Seq<u8>,
    pub reserved: Seq<u8>,
    pub record: MbrRecordView,
    pub rest_records: Seq<u8>,
    pub signature: Seq<u8>,
}

impl View for MbrPartitionRecord {
    type V = MbrRecordView;

    open spec fn view(&self) -> MbrRecordView {
        MbrRecordView {
            boot_indicator: self.boot_indicator,
            starting_chs: self.starting_chs@,
            os_type: self.os_type,
            ending_chs: self.ending_chs@,
            starting_lba: self.starting_lba,
            size_in_lba: self.size_in_lba,
        }
    }
}

impl View for ProtectiveMBR {
    type V = MbrView;

    open spec fn view(&self) -> MbrView {
        MbrView {
            boot_code: self.boot_code@,
            disk_signature: self.disk_signature@,
            reserved: self.reserved@,
            record: self.record@,
            rest_records: self.rest_records@,
            signature: self.signature@,
        }
    }
}

impl MbrRecordView {
    /// Every raw field has its fixed on-disk width.
    pub open spec fn wf(self) -> bool {
        &&& self.starting_chs.len() == 3
        &&& self.ending_chs.len() == 3
    }
}

impl MbrView {
    /// Every raw field has its fixed on-disk width.
    pub open spec fn wf(self) -> bool {
        &&& self.boot_code.len() == 440
        &&& self.disk_signature.len() == 4
        &&& self.reserved.len() == 2
        &&& self.record.wf()
        &&& self.rest_records.len() == 48
        &&& self.signature.len() == 2
    }

    /// The boot signature equals `0x55 0xAA`.
    pub open spec fn signature_valid(self) -> bool {
        &&& self.signature.len() == 2
        &&& self.signature[0] == 0x55
        &&& self.signature[1] == 0xAA
    }
}

// ---------------------------------------------------------------------------
// Byte layout
// ---------------------------------------------------------------------------

/// On-disk bytes of a partition record.
pub open spec fn mbr_record_enc(r: MbrRecordView) -> Seq<u8> {
    seq![r.boot_indicator] + r.starting_chs + seq![r.os_type] + r.ending_chs
        + spec_u32_to_le_bytes(r.starting_lba) + spec_u32_to_le_bytes(r.size_in_lba)
}

/// Partition record decoded from its 16 on-disk bytes.
pub open spec fn mbr_record_parse(s: Seq<u8>) -> MbrRecordView
    recommends
        s.len() == 16,
{
    MbrRecordView {
        boot_indicator: s[0],
        starting_chs: s.subrange(1, 4),
        os_type: s[4],
        ending_chs: s.subrange(5, 8),
        starting_lba: spec_u32_from_le_bytes(s.subrange(8, 12)),
        size_in_lba: spec_u32_from_le_bytes(s.subrange(12, 16)),
    }
}

/// On-disk bytes of the whole 512-byte block.
pub open spec fn mbr_enc(m: MbrView) -> Seq<u8> {
    m.boot_code + m.disk_signature + m.reserved + mbr_record_enc(m.record) + m.rest_records
        + m.signature
}

/// Protective MBR decoded from its 512 on-disk bytes.
pub open spec fn mbr_parse(s: Seq<u8>) -> MbrView
    recommends
        s.len() == 512,
{
    MbrView {
        boot_code: s.subrange(0, 440),
        disk_signature: s.subrange(440, 444),
        reserved: s.subrange(444, 446),
        record: mbr_record_parse(s.subrange(446, 462)),
        rest_records: s.subrange(462, 510),
        signature: s.subrange(510, 512),
    }
}

/// Re-encoding a decoded partition record reproduces its bytes.
pub proof fn lemma_mbr_record_enc_parse(s: Seq<u8>)
    requires
        s.len() == 16,
    ensures
        mbr_record_enc(mbr_record_parse(s)) == s,
{
    lemma_auto_spec_u32_to_from_le_bytes();
    assert(mbr_record_enc(mbr_record_parse(s)) =~= s);
}

/// Re-encoding a decoded Protective MBR reproduces its bytes.
pub proof fn lemma_mbr_enc_parse(s: Seq<u8>)
    requires
        s.len() == 512,
    ensures
        mbr_enc(mbr_parse(s)) == s,
{
    lemma_mbr_record_enc_parse(s.subrange(446, 462));
    assert(mbr_enc(mbr_parse(s)) =~= s);
}

/// Decoding a re-encoded partition record reproduces the record.
pub proof fn lemma_mbr_record_parse_enc(r: MbrRecordView)
    requires
        r.wf(),
    ensures
        mbr_record_parse(mbr_record_enc(r)) == r,
{
    lemma_auto_spec_u32_to_from_le_bytes();
    let e = mbr_record_enc(r);
    assert(e.subrange(8, 12) =~= spec_u32_to_le_bytes(r.starting_lba));
    assert(e.subrange(12, 16) =~= spec_u32_to_le_bytes(r.size_in_lba));
    assert(mbr_record_parse(e) =~= r);
}

/// Decoding a re-encoded Protective MBR reproduces the record.
pub proof fn lemma_mbr_parse_enc(m: MbrView)
    requires
        m.wf(),
    ensures
        mbr_parse(mbr_enc(m)) == m,
{
    lemma_auto_spec_u32_to_from_le_bytes();
    let e = mbr_enc(m);
    assert(e.subrange(446, 462) =~= mbr_record_enc(m.record));
    lemma_mbr_record_parse_enc(m.record);
    assert(mbr_parse(e) =~= m);
}

// ---------------------------------------------------------------------------
// Executable codec
// ---------------------------------------------------------------------------

impl MbrPartitionRecord {
    /// Decode a partition record from its 16 on-disk bytes.
    pub fn parse(bytes: &[u8]) -> (r: MbrPartitionRecord)
        requires
            bytes@.len() == 16,
        ensures
            r@ == mbr_record_parse(bytes@),
            r@.wf(),
    {
        MbrPartitionRecord {
            boot_indicator: bytes[0],
            starting_chs: bytes_to_vec(slice_subrange(bytes, 1, 4)),
            os_type: bytes[4],
            ending_chs: bytes_to_vec(slice_subrange(bytes, 5, 8)),
            starting_lba: u32_from_le_bytes(slice_subrange(bytes, 8, 12)),
            size_in_lba: u32_from_le_bytes(slice_subrange(bytes, 12, 16)),
        }
    }

    /// Append the 16 on-disk bytes of this record.
    pub fn encode_to(&self, out: &mut Vec<u8>)
        requires
            self@.wf(),
        ensures
            final(out)@ == old(out)@ + mbr_record_enc(self@),
    {
        out.push(self.boot_indicator);
        append_bytes(out, self.starting_chs.as_slice());
        out.push(self.os_type);
        append_bytes(out, self.ending_chs.as_slice());
        let mut lba = u32_to_le_bytes(self.starting_lba);
        out.append(&mut lba);
        let mut size = u32_to_le_bytes(self.size_in_lba);
        out.append(&mut size);
        proof {
            assert(out@ =~= old(out)@ + mbr_record_enc(self@));
        }
    }
}

impl ProtectiveMBR {
    /// Decode a Protective MBR from its 512 on-disk bytes.
    pub fn parse(bytes: &[u8]) -> (r: ProtectiveMBR)
        requires
            bytes@.len() == 512,
        ensures
            r@ == mbr_parse(bytes@),
            r@.wf(),
    {
        ProtectiveMBR {
            boot_code: bytes_to_vec(slice_subrange(bytes, 0, 440)),
            disk_signature: bytes_to_vec(slice_subrange(bytes, 440, 444)),
            reserved: bytes_to_vec(slice_subrange(bytes, 444, 446)),
            record: MbrPartitionRecord::parse(slice_subrange(bytes, 446, 462)),
            rest_records: bytes_to_vec(slice_subrange(bytes, 462, 510)),
            signature: bytes_to_vec(slice_subrange(bytes, 510, 512)),
        }
    }

    /// Serialize this block to its 512 on-disk bytes.
    pub fn encode(&self) -> (r: Vec<u8>)
        requires
            self@.wf(),
        ensures
            r@ == mbr_enc(self@),
            r@.len() == 512,
    {
        let mut out: Vec<u8> = Vec::new();
        append_bytes(&mut out, self.boot_code.as_slice());
        append_bytes(&mut out, self.disk_signature.as_slice());
        append_bytes(&mut out, self.reserved.as_slice());
        self.record.encode_to(&mut out);
        append_bytes(&mut out, self.rest_records.as_slice());
        append_bytes(&mut out, self.signature.as_slice());
        proof {
            lemma_auto_spec_u32_to_from_le_bytes();
            assert(out@ =~= mbr_enc(self@));
        }
        out
    }

    /// Whether the boot signature equals `0x55 0xAA`.
    pub fn valid_signature(&self) -> (r: bool)
        requires
            self@.wf(),
        ensures
            r == self@.signature_valid(),
    {
        self.signature[0] == 0x55 && self.signature[1] == 0xAA
    }

    /// Describe the boot code: a zero sentinel when all 440 bytes are zero,
    /// else an uppercase hex preview of the first four bytes.
    pub fn boot_code_repr(&self) -> (r: String)
        requires
            self@.wf(),
        ensures
            r@ == mbr_boot_code_repr(self@),
    {
        if is_all_zero(self.boot_code.as_slice()) {
            String::from_str("[Zero]")
        } else {
            let mut r = String::new();
            r.append("[");
            append_hex_byte_upper(&mut r, self.boot_code[0]);
            r.append(" ");
            append_hex_byte_upper(&mut r, self.boot_code[1]);
            r.append(" ");
            append_hex_byte_upper(&mut r, self.boot_code[2]);
            r.append(" ");
            append_hex_byte_upper(&mut r, self.boot_code[3]);
            r.append(" ...]");
            proof {
                assert(r@ =~= mbr_boot_code_repr(self@));
            }
            r
        }
    }

    /// Describe the boot signature: its two bytes in uppercase hex, followed
    /// by a validity verdict.
    pub fn signature_repr(&self) -> (r: String)
        requires
            self@.wf(),
        ensures
            r@ == mbr_signature_repr(self@),
    {
        let mut r = String::new();
        r.append("[");
        append_hex_byte_upper(&mut r, self.signature[0]);
        r.append(" ");
        append_hex_byte_upper(&mut r, self.signature[1]);
        r.append("] ");
        if self.valid_signature() {
            r.append("valid");
        } else {
            r.append("invalid");
        }
        proof {
            assert(r@ =~= mbr_signature_repr(self@));
        }
        r
    }

    /// Describe the OS type byte of the protective record: the GPT label for
    /// `0xEE`, else an unknown label carrying the raw byte.
    pub fn os_type_repr(&self) -> (r: String)
        ensures
            r@ == mbr_os_type_repr(self@),
    {
        if self.record.os_type == 0xEE {
            String::from_str("GPT Protective (0xEE)")
        } else {
            let mut r = String::new();
            r.append("Unknown (0x");
            append_hex_byte_upper(&mut r, self.record.os_type);
            r.append(")");
            proof {
                assert(r@ =~= mbr_os_type_repr(self@));
            }
            r
        }
    }
}

/// Text of `boot_code_repr`.
pub open spec fn mbr_boot_code_repr(m: MbrView) -> Seq<char>
    recommends
        m.wf(),
{
    if all_zero(m.boot_code) {
        "[Zero]"@
    } else {
        "["@ + byte_hex_upper(m.boot_code[0]) + " "@ + byte_hex_upper(m.boot_code[1]) + " "@
            + byte_hex_upper(m.boot_code[2]) + " "@ + byte_hex_upper(m.boot_code[3]) + " ...]"@
    }
}

/// Text of `signature_repr`.
pub open spec fn mbr_signature_repr(m: MbrView) -> Seq<char>
    recommends
        m.wf(),
{
    "["@ + byte_hex_upper(m.signature[0]) + " "@ + byte_hex_upper(m.signature[1]) + "] "@
        + (if m.signature_valid() {
        "valid"@
    } else {
        "invalid"@
    })
}

/// Text of `os_type_repr`.
pub open spec fn mbr_os_type_repr(m: MbrView) -> Seq<char> {
    if m.record.os_type == 0xEE {
        "GPT Protective (0xEE)"@
    } else {
        "Unknown (0x"@ + byte_hex_upper(m.record.os_type) + ")"@
    }
}

/// The all-zero partition record.
pub open spec fn mbr_record_zeroed() -> MbrRecordView {
    MbrRecordView {
        boot_indicator: 0,
        starting_chs: zero_bytes(3),
        os_type: 0,
        ending_chs: zero_bytes(3),
        starting_lba: 0,
        size_in_lba: 0,
    }
}

/// The all-zero Protective MBR.
pub open spec fn mbr_zeroed() -> MbrView {
    MbrView {
        boot_code: zero_bytes(440),
        disk_signature: zero_bytes(4),
        reserved: zero_bytes(2),
        record: mbr_record_zeroed(),
        rest_records: zero_bytes(48),
        signature: zero_bytes(2),
    }
}

impl Default for ProtectiveMBR {
    /// The all-zero block, standing in for an uninitialized record.
    fn default() -> (r: ProtectiveMBR)
        ensures
            r@ == mbr_zeroed(),
            r@.wf(),
    {
        ProtectiveMBR {
            boot_code: zeroed_vec(440),
            disk_signature: zeroed_vec(4),
            reserved: zeroed_vec(2),
            record: MbrPartitionRecord {
                boot_indicator: 0,
                starting_chs: zeroed_vec(3),
                os_type: 0,
                ending_chs: zeroed_vec(3),
                starting_lba: 0,
                size_in_lba: 0,
            },
            rest_records: zeroed_vec(48),
            signature: zeroed_vec(2),
        }
    }
}

} // verus!
