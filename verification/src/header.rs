//! GPT header: a fixed 92-byte record housed in the block after the
//! Protective MBR. It names the usable LBA range, the disk GUID, and the
//! location and shape of the partition-entry array, and carries two CRC32
//! checksums: one over itself (with the checksum field zeroed during
//! computation) and one over the serialized entry array.

use vstd::prelude::*;
use vstd::bytes::*;
use vstd::slice::slice_subrange;
use vstd::string::StringExecFns;

use crate::util::{append_bytes, append_dec_u32, bytes_to_vec, dec_chars, spec_crc32, crc32,
    zero_bytes, zeroed_vec};

verus! {

// ---------------------------------------------------------------------------
// Data model
// ---------------------------------------------------------------------------

/// The 92-byte GPT header record.
pub struct GptHeader {
    /// 8 bytes, `"EFI PART"` in ASCII when valid.
    pub signature: Vec<u8>,
    pub revision_minor: u16,
    pub revision_major: u16,
    /// Declared size of this header; 92 when it matches the true encoded
    /// size.
    pub header_size: u32,
    /// CRC32 of the header bytes with this field zeroed during computation.
    pub header_crc32: u32,
    /// 4 reserved bytes, kept raw.
    pub reserved: Vec<u8>,
    pub current_lba: u64,
    pub backup_lba: u64,
    pub first_usable_lba: u64,
    pub last_usable_lba: u64,
    /// 16-byte disk GUID in mixed-endian on-disk order.
    pub disk_guid: Vec<u8>,
    pub partition_entry_lba: u64,
    /// Count of partition entries in the array.
    pub partition_entries: u32,
    /// On-disk stride of each entry record.
    pub partition_entry_size: u32,
    /// CRC32 over the serialized partition-entry array.
    pub partition_entry_crc32: u32,
}

/// Mathematical model of a GPT header.
#[verifier::ext_equal]
pub ghost struct HeaderView {
    pub signature: Seq<u8>,
    pub revision_minor: u16,
    pub revision_major: u16,
    pub header_size: u32,
    pub header_crc32: u32,
    pub reserved: Seq<u8>,
    pub current_lba: u64,
    pub backup_lba: u64,
    pub first_usable_lba: u64,
    pub last_usable_lba: u64,
    pub disk_guid: Seq<u8>,
    pub partition_entry_lba: u64,
    pub partition_entries: u32,
    pub partition_entry_size: u32,
    pub partition_entry_crc32: u32,
}

impl View for GptHeader {
    type V = HeaderView;

    open spec fn view(&self) -> HeaderView {
        HeaderView {
            signature: self.signature@,
            revision_minor: self.revision_minor,
            revision_major: self.revision_major,
            header_size: self.header_size,
            header_crc32: self.header_crc32,
            reserved: self.reserved@,
            current_lba: self.current_lba,
            backup_lba: self.backup_lba,
            first_usable_lba: self.first_usable_lba,
            last_usable_lba: self.last_usable_lba,
            disk_guid: self.disk_guid@,
            partition_entry_lba: self.partition_entry_lba,
            partition_entries: self.partition_entries,
            partition_entry_size: self.partition_entry_size,
            partition_entry_crc32: self.partition_entry_crc32,
        }
    }
}

/// The ASCII bytes of `"EFI PART"`.
pub open spec fn efi_signature_bytes() -> Seq<u8> {
    seq![0x45u8, 0x46u8, 0x49u8, 0x20u8, 0x50u8, 0x41u8, 0x52u8, 0x54u8]
}

impl HeaderView {
    /// Every raw field has its fixed on-disk width.
    pub open spec fn wf(self) -> bool {
        &&& self.signature.len() == 8
        &&& self.reserved.len() == 4
        &&& self.disk_guid.len() == 16
    }

    /// The signature field spells `"EFI PART"`.
    pub open spec fn signature_valid(self) -> bool {
        self.signature == efi_signature_bytes()
    }

    /// The declared header size matches the true encoded size.
    pub open spec fn size_valid(self) -> bool {
        self.header_size == 92
    }
}

// ---------------------------------------------------------------------------
// Byte layout
// ---------------------------------------------------------------------------

/// On-disk bytes of a header.
pub open spec fn header_enc(h: HeaderView) -> Seq<u8> {
    h.signature + spec_u16_to_le_bytes(h.revision_minor) + spec_u16_to_le_bytes(h.revision_major)
        + spec_u32_to_le_bytes(h.header_size) + spec_u32_to_le_bytes(h.header_crc32) + h.reserved
        + spec_u64_to_le_bytes(h.current_lba) + spec_u64_to_le_bytes(h.backup_lba)
        + spec_u64_to_le_bytes(h.first_usable_lba) + spec_u64_to_le_bytes(h.last_usable_lba)
        + h.disk_guid + spec_u64_to_le_bytes(h.partition_entry_lba)
        + spec_u32_to_le_bytes(h.partition_entries) + spec_u32_to_le_bytes(h.partition_entry_size)
        + spec_u32_to_le_bytes(h.partition_entry_crc32)
}

/// Header decoded from its 92 on-disk bytes.
pub open spec fn header_parse(s: Seq<u8>) -> HeaderView
    recommends
        s.len() == 92,
{
    HeaderView {
        signature: s.subrange(0, 8),
        revision_minor: spec_u16_from_le_bytes(s.subrange(8, 10)),
        revision_major: spec_u16_from_le_bytes(s.subrange(10, 12)),
        header_size: spec_u32_from_le_bytes(s.subrange(12, 16)),
        header_crc32: spec_u32_from_le_bytes(s.subrange(16, 20)),
        reserved: s.subrange(20, 24),
        current_lba: spec_u64_from_le_bytes(s.subrange(24, 32)),
        backup_lba: spec_u64_from_le_bytes(s.subrange(32, 40)),
        first_usable_lba: spec_u64_from_le_bytes(s.subrange(40, 48)),
        last_usable_lba: spec_u64_from_le_bytes(s.subrange(48, 56)),
        disk_guid: s.subrange(56, 72),
        partition_entry_lba: spec_u64_from_le_bytes(s.subrange(72, 80)),
        partition_entries: spec_u32_from_le_bytes(s.subrange(80, 84)),
        partition_entry_size: spec_u32_from_le_bytes(s.subrange(84, 88)),
        partition_entry_crc32: spec_u32_from_le_bytes(s.subrange(88, 92)),
    }
}

/// Re-encoding a decoded header reproduces its bytes.
pub proof fn lemma_header_enc_parse(s: Seq<u8>)
    requires
        s.len() == 92,
    ensures
        header_enc(header_parse(s)) == s,
{
    lemma_auto_spec_u16_to_from_le_bytes();
    lemma_auto_spec_u32_to_from_le_bytes();
    lemma_auto_spec_u64_to_from_le_bytes();
    assert(header_enc(header_parse(s)) =~= s);
}

/// Decoding a re-encoded header reproduces the record.
pub proof fn lemma_header_parse_enc(h: HeaderView)
    requires
        h.wf(),
    ensures
        header_parse(header_enc(h)) == h,
{
    lemma_auto_spec_u16_to_from_le_bytes();
    lemma_auto_spec_u32_to_from_le_bytes();
    lemma_auto_spec_u64_to_from_le_bytes();
    let e = header_enc(h);
    assert(e.subrange(8, 10) =~= spec_u16_to_le_bytes(h.revision_minor));
    assert(e.subrange(10, 12) =~= spec_u16_to_le_bytes(h.revision_major));
    assert(e.subrange(12, 16) =~= spec_u32_to_le_bytes(h.header_size));
    assert(e.subrange(16, 20) =~= spec_u32_to_le_bytes(h.header_crc32));
    assert(e.subrange(24, 32) =~= spec_u64_to_le_bytes(h.current_lba));
    assert(e.subrange(32, 40) =~= spec_u64_to_le_bytes(h.backup_lba));
    assert(e.subrange(40, 48) =~= spec_u64_to_le_bytes(h.first_usable_lba));
    assert(e.subrange(48, 56) =~= spec_u64_to_le_bytes(h.last_usable_lba));
    assert(e.subrange(72, 80) =~= spec_u64_to_le_bytes(h.partition_entry_lba));
    assert(e.subrange(80, 84) =~= spec_u32_to_le_bytes(h.partition_entries));
    assert(e.subrange(84, 88) =~= spec_u32_to_le_bytes(h.partition_entry_size));
    assert(e.subrange(88, 92) =~= spec_u32_to_le_bytes(h.partition_entry_crc32));
    assert(header_parse(e) =~= h);
}

// ---------------------------------------------------------------------------
// Self-checksum: the header bytes with the checksum field (offsets 16..20)
// zeroed, then CRC32.
// ---------------------------------------------------------------------------

/// The header bytes with the checksum field zeroed.
pub open spec fn header_bytes_crc_zeroed(h: HeaderView) -> Seq<u8> {
    header_enc(h).subrange(0, 16) + zero_bytes(4) + header_enc(h).subrange(20, 92)
}

/// The header's own CRC32: computed over its bytes with the checksum field
/// zeroed.
pub open spec fn header_self_crc(h: HeaderView) -> u32 {
    spec_crc32(header_bytes_crc_zeroed(h))
}

/// The self-checksum does not depend on the stored checksum field.
pub proof fn lemma_self_crc_ignores_crc_field(h: HeaderView, c: u32)
    requires
        h.wf(),
    ensures
        header_self_crc(HeaderView { header_crc32: c, ..h }) == header_self_crc(h),
{
    let h2 = HeaderView { header_crc32: c, ..h };
    lemma_auto_spec_u16_to_from_le_bytes();
    lemma_auto_spec_u32_to_from_le_bytes();
    lemma_auto_spec_u64_to_from_le_bytes();
    assert(header_bytes_crc_zeroed(h2) =~= header_bytes_crc_zeroed(h));
}

// ---------------------------------------------------------------------------
// Executable codec
// ---------------------------------------------------------------------------

impl GptHeader {
    /// Decode a header from its 92 on-disk bytes.
    pub fn parse(bytes: &[u8]) -> (r: GptHeader)
        requires
            bytes@.len() == 92,
        ensures
            r@ == header_parse(bytes@),
            r@.wf(),
    {
        GptHeader {
            signature: bytes_to_vec(slice_subrange(bytes, 0, 8)),
            revision_minor: u16_from_le_bytes(slice_subrange(bytes, 8, 10)),
            revision_major: u16_from_le_bytes(slice_subrange(bytes, 10, 12)),
            header_size: u32_from_le_bytes(slice_subrange(bytes, 12, 16)),
            header_crc32: u32_from_le_bytes(slice_subrange(bytes, 16, 20)),
            reserved: bytes_to_vec(slice_subrange(bytes, 20, 24)),
            current_lba: u64_from_le_bytes(slice_subrange(bytes, 24, 32)),
            backup_lba: u64_from_le_bytes(slice_subrange(bytes, 32, 40)),
            first_usable_lba: u64_from_le_bytes(slice_subrange(bytes, 40, 48)),
            last_usable_lba: u64_from_le_bytes(slice_subrange(bytes, 48, 56)),
            disk_guid: bytes_to_vec(slice_subrange(bytes, 56, 72)),
            partition_entry_lba: u64_from_le_bytes(slice_subrange(bytes, 72, 80)),
            partition_entries: u32_from_le_bytes(slice_subrange(bytes, 80, 84)),
            partition_entry_size: u32_from_le_bytes(slice_subrange(bytes, 84, 88)),
            partition_entry_crc32: u32_from_le_bytes(slice_subrange(bytes, 88, 92)),
        }
    }

    /// Serialize this header to its 92 on-disk bytes.
    pub fn encode(&self) -> (r: Vec<u8>)
        requires
            self@.wf(),
        ensures
            r@ == header_enc(self@),
            r@.len() == 92,
    {
        let mut out: Vec<u8> = Vec::new();
        append_bytes(&mut out, self.signature.as_slice());
        let mut rev_minor = u16_to_le_bytes(self.revision_minor);
        out.append(&mut rev_minor);
        let mut rev_major = u16_to_le_bytes(self.revision_major);
        out.append(&mut rev_major);
        let mut size = u32_to_le_bytes(self.header_size);
        out.append(&mut size);
        let mut crc = u32_to_le_bytes(self.header_crc32);
        out.append(&mut crc);
        append_bytes(&mut out, self.reserved.as_slice());
        let mut current = u64_to_le_bytes(self.current_lba);
        out.append(&mut current);
        let mut backup = u64_to_le_bytes(self.backup_lba);
        out.append(&mut backup);
        let mut first_usable = u64_to_le_bytes(self.first_usable_lba);
        out.append(&mut first_usable);
        let mut last_usable = u64_to_le_bytes(self.last_usable_lba);
        out.append(&mut last_usable);
        append_bytes(&mut out, self.disk_guid.as_slice());
        let mut entry_lba = u64_to_le_bytes(self.partition_entry_lba);
        out.append(&mut entry_lba);
        let mut entries = u32_to_le_bytes(self.partition_entries);
        out.append(&mut entries);
        let mut entry_size = u32_to_le_bytes(self.partition_entry_size);
        out.append(&mut entry_size);
        let mut entry_crc = u32_to_le_bytes(self.partition_entry_crc32);
        out.append(&mut entry_crc);
        proof {
            lemma_auto_spec_u16_to_from_le_bytes();
            lemma_auto_spec_u32_to_from_le_bytes();
            lemma_auto_spec_u64_to_from_le_bytes();
            assert(out@ =~= header_enc(self@));
        }
        out
    }

    /// Whether the signature field spells `"EFI PART"`.
    pub fn is_signature_valid(&self) -> (r: bool)
        requires
            self@.wf(),
        ensures
            r == self@.signature_valid(),
    {
        let r = self.signature[0] == 0x45 && self.signature[1] == 0x46 && self.signature[2] == 0x49
            && self.signature[3] == 0x20 && self.signature[4] == 0x50 && self.signature[5] == 0x41
            && self.signature[6] == 0x52 && self.signature[7] == 0x54;
        proof {
            if r {
                assert(self@.signature =~= efi_signature_bytes());
            }
        }
        r
    }

    /// Recompute this header's own CRC32 over a serialization with the
    /// checksum field zeroed; the stored field is left untouched.
    pub fn crc32_self(&self) -> (r: u32)
        requires
            self@.wf(),
        ensures
            r == header_self_crc(self@),
    {
        let mut buf = self.encode();
        buf.set(16, 0);
        buf.set(17, 0);
        buf.set(18, 0);
        buf.set(19, 0);
        proof {
            assert(buf@ =~= header_bytes_crc_zeroed(self@));
        }
        crc32(buf.as_slice())
    }

    /// Describe the declared header size against the true encoded size.
    pub fn header_size_repr(&self) -> (r: String)
        ensures
            r@ == header_size_repr_spec(self@),
    {
        let mut r = String::new();
        append_dec_u32(&mut r, self.header_size);
        if self.header_size == 92 {
            r.append(" (valid)");
        } else {
            r.append(" (invalid)");
        }
        proof {
            assert(r@ =~= header_size_repr_spec(self@));
        }
        r
    }
}

/// Text of `header_size_repr`.
pub open spec fn header_size_repr_spec(h: HeaderView) -> Seq<char> {
    dec_chars(h.header_size as nat) + (if h.size_valid() {
        " (valid)"@
    } else {
        " (invalid)"@
    })
}

/// The all-zero header.
pub open spec fn header_zeroed() -> HeaderView {
    HeaderView {
        signature: zero_bytes(8),
        revision_minor: 0,
        revision_major: 0,
        header_size: 0,
        header_crc32: 0,
        reserved: zero_bytes(4),
        current_lba: 0,
        backup_lba: 0,
        first_usable_lba: 0,
        last_usable_lba: 0,
        disk_guid: zero_bytes(16),
        partition_entry_lba: 0,
        partition_entries: 0,
        partition_entry_size: 0,
        partition_entry_crc32: 0,
    }
}

impl Default for GptHeader {
    /// The all-zero header, standing in for an uninitialized record.
    fn default() -> (r: GptHeader)
        ensures
            r@ == header_zeroed(),
            r@.wf(),
    {
        GptHeader {
            signature: zeroed_vec(8),
            revision_minor: 0,
            revision_major: 0,
            header_size: 0,
            header_crc32: 0,
            reserved: zeroed_vec(4),
            current_lba: 0,
            backup_lba: 0,
            first_usable_lba: 0,
            last_usable_lba: 0,
            disk_guid: zeroed_vec(16),
            partition_entry_lba: 0,
            partition_entries: 0,
            partition_entry_size: 0,
            partition_entry_crc32: 0,
        }
    }
}

} // verus!
