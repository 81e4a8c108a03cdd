//! GPT partition entry: a 128-byte record holding a partition-type GUID, a
//! unique partition GUID, the LBA range, an attribute bitmask, and a
//! fixed-width null-padded name field. An entry is empty precisely when both
//! GUID fields are entirely zero. The entry array's CRC32 is computed over
//! the concatenation of every entry's exact on-disk bytes, in array order.

use vstd::prelude::*;
use vstd::bytes::*;
use vstd::slice::slice_subrange;
use vstd::string::StringExecFns;

use crate::util::{all_zero, append_bytes, bytes_eq, bytes_to_vec, is_all_zero, spec_crc32, crc32,
    zero_bytes, zeroed_vec};

verus! {

// ---------------------------------------------------------------------------
// Data model
// ---------------------------------------------------------------------------

/// The 128-byte partition entry record.
pub struct GptPart {
    /// 16-byte partition-type GUID in mixed-endian on-disk order.
    pub type_guid: Vec<u8>,
    /// 16-byte unique partition GUID in mixed-endian on-disk order.
    pub unique_partition_guid: Vec<u8>,
    pub starting_lba: u64,
    pub ending_lba: u64,
    pub attributes: u64,
    /// 72 bytes of fixed-width null-padded name text, kept raw.
    pub name: Vec<u8>,
}

/// Mathematical model of a partition entry.
#[verifier::ext_equal]
pub ghost struct PartView {
    pub type_guid: Seq<u8>,
    pub unique_partition_guid: Seq<u8>,
    pub starting_lba: u64,
    pub ending_lba: u64,
    pub attributes: u64,
    pub name: Seq<u8>,
}

impl View for GptPart {
    type V = PartView;

    open spec fn view(&self) -> PartView {
        PartView {
            type_guid: self.type_guid@,
            unique_partition_guid: self.unique_partition_guid@,
            starting_lba: self.starting_lba,
            ending_lba: self.ending_lba,
            attributes: self.attributes,
            name: self.name@,
        }
    }
}

impl PartView {
    /// Every raw field has its fixed on-disk width.
    pub open spec fn wf(self) -> bool {
        &&& self.type_guid.len() == 16
        &&& self.unique_partition_guid.len() == 16
        &&& self.name.len() == 72
    }
}

/// An entry is empty exactly when both of its GUID fields are all zero.
pub open spec fn part_is_empty(p: PartView) -> bool {
    all_zero(p.type_guid) && all_zero(p.unique_partition_guid)
}

/// The views of a vector of entries.
pub open spec fn part_views(parts: Seq<GptPart>) -> Seq<PartView> {
    parts.map_values(|p: GptPart| p@)
}

/// Every entry of the sequence is well-formed.
pub open spec fn parts_wf(parts: Seq<PartView>) -> bool {
    forall|i: int| 0 <= i < parts.len() ==> (#[trigger] parts[i]).wf()
}

// ---------------------------------------------------------------------------
// Byte layout
// ---------------------------------------------------------------------------

/// On-disk bytes of a partition entry.
pub open spec fn part_enc(p: PartView) -> Seq<u8> {
    p.type_guid + p.unique_partition_guid + spec_u64_to_le_bytes(p.starting_lba)
        + spec_u64_to_le_bytes(p.ending_lba) + spec_u64_to_le_bytes(p.attributes) + p.name
}

/// Partition entry decoded from its 128 on-disk bytes.
pub open spec fn part_parse(s: Seq<u8>) -> PartView
    recommends
        s.len() == 128,
{
    PartView {
        type_guid: s.subrange(0, 16),
        unique_partition_guid: s.subrange(16, 32),
        starting_lba: spec_u64_from_le_bytes(s.subrange(32, 40)),
        ending_lba: spec_u64_from_le_bytes(s.subrange(40, 48)),
        attributes: spec_u64_from_le_bytes(s.subrange(48, 56)),
        name: s.subrange(56, 128),
    }
}

/// The encoded entry of a well-formed record is 128 bytes long.
pub proof fn lemma_part_enc_len(p: PartView)
    requires
        p.wf(),
    ensures
        part_enc(p).len() == 128,
{
    lemma_auto_spec_u64_to_from_le_bytes();
}

/// Re-encoding a decoded partition entry reproduces its bytes.
pub proof fn lemma_part_enc_parse(s: Seq<u8>)
    requires
        s.len() == 128,
    ensures
        part_enc(part_parse(s)) == s,
{
    lemma_auto_spec_u64_to_from_le_bytes();
    assert(part_enc(part_parse(s)) =~= s);
}

/// Decoding a re-encoded partition entry reproduces the record.
pub proof fn lemma_part_parse_enc(p: PartView)
    requires
        p.wf(),
    ensures
        part_parse(part_enc(p)) == p,
{
    lemma_auto_spec_u64_to_from_le_bytes();
    let e = part_enc(p);
    assert(e.subrange(32, 40) =~= spec_u64_to_le_bytes(p.starting_lba));
    assert(e.subrange(40, 48) =~= spec_u64_to_le_bytes(p.ending_lba));
    assert(e.subrange(48, 56) =~= spec_u64_to_le_bytes(p.attributes));
    assert(part_parse(e) =~= p);
}

// ---------------------------------------------------------------------------
// Entry-array checksum
// ---------------------------------------------------------------------------

/// Concatenated on-disk bytes of every entry, in array order.
pub open spec fn table_bytes(parts: Seq<PartView>) -> Seq<u8>
    decreases parts.len(),
{
    if parts.len() == 0 {
        Seq::empty()
    } else {
        table_bytes(parts.drop_last()) + part_enc(parts.last())
    }
}

/// CRC32 over the concatenated on-disk bytes of every entry.
pub open spec fn spec_table_crc32(parts: Seq<PartView>) -> u32 {
    spec_crc32(table_bytes(parts))
}

/// Compute the CRC32 of the serialized entry array, in array order.
pub fn table_crc32(parts: &Vec<GptPart>) -> (r: u32)
    requires
        parts_wf(part_views(parts@)),
    ensures
        r == spec_table_crc32(part_views(parts@)),
{
    let ghost views = part_views(parts@);
    let n = parts.len();
    let mut buf: Vec<u8> = Vec::new();
    let mut i: usize = 0;
    while i < n
        invariant
            i <= n,
            n == parts@.len(),
            parts_wf(views),
            views == part_views(parts@),
            buf@ == table_bytes(views.take(i as int)),
        decreases n - i,
    {
        proof {
            assert(views[i as int] == parts@[i as int]@);
        }
        let mut entry = parts[i].encode();
        buf.append(&mut entry);
        i = i + 1;
        proof {
            assert(views.take(i as int).drop_last() =~= views.take(i - 1));
            assert(views.take(i as int).last() == views[i - 1]);
        }
    }
    proof {
        assert(views.take(n as int) =~= views);
    }
    crc32(buf.as_slice())
}

// ---------------------------------------------------------------------------
// Executable codec
// ---------------------------------------------------------------------------

impl GptPart {
    /// Decode a partition entry from its 128 on-disk bytes.
    pub fn parse(bytes: &[u8]) -> (r: GptPart)
        requires
            bytes@.len() == 128,
        ensures
            r@ == part_parse(bytes@),
            r@.wf(),
    {
        GptPart {
            type_guid: bytes_to_vec(slice_subrange(bytes, 0, 16)),
            unique_partition_guid: bytes_to_vec(slice_subrange(bytes, 16, 32)),
            starting_lba: u64_from_le_bytes(slice_subrange(bytes, 32, 40)),
            ending_lba: u64_from_le_bytes(slice_subrange(bytes, 40, 48)),
            attributes: u64_from_le_bytes(slice_subrange(bytes, 48, 56)),
            name: bytes_to_vec(slice_subrange(bytes, 56, 128)),
        }
    }

    /// Serialize this entry to its 128 on-disk bytes.
    pub fn encode(&self) -> (r: Vec<u8>)
        requires
            self@.wf(),
        ensures
            r@ == part_enc(self@),
            r@.len() == 128,
    {
        let mut out: Vec<u8> = Vec::new();
        append_bytes(&mut out, self.type_guid.as_slice());
        append_bytes(&mut out, self.unique_partition_guid.as_slice());
        let mut start = u64_to_le_bytes(self.starting_lba);
        out.append(&mut start);
        let mut end = u64_to_le_bytes(self.ending_lba);
        out.append(&mut end);
        let mut attrs = u64_to_le_bytes(self.attributes);
        out.append(&mut attrs);
        append_bytes(&mut out, self.name.as_slice());
        proof {
            lemma_auto_spec_u64_to_from_le_bytes();
            assert(out@ =~= part_enc(self@));
        }
        out
    }

    /// Whether both GUID fields are entirely zero.
    pub fn is_empty(&self) -> (r: bool)
        requires
            self@.wf(),
        ensures
            r == part_is_empty(self@),
    {
        is_all_zero(self.type_guid.as_slice()) && is_all_zero(self.unique_partition_guid.as_slice())
    }

    /// Classify the partition-type GUID against the known-type table,
    /// degrading to an unknown label for unrecognized values.
    pub fn part_type_repr(&self) -> (r: String)
        ensures
            r@ == part_type_label(self@),
    {
        let linux_fs: Vec<u8> = vec![0xAF, 0x3D, 0xC6, 0x0F, 0x83, 0x84, 0x72, 0x47, 0x8E, 0x79,
            0x3D, 0x69, 0xD8, 0x47, 0x7D, 0xE4];
        let efi_system: Vec<u8> = vec![0x28, 0x73, 0x2A, 0xC1, 0x1F, 0xF8, 0xD2, 0x11, 0xBA, 0x4B,
            0x00, 0xA0, 0xC9, 0x3E, 0xC9, 0x3B];
        proof {
            assert(linux_fs@ =~= linux_fs_type_guid());
            assert(efi_system@ =~= efi_system_type_guid());
        }
        if bytes_eq(self.type_guid.as_slice(), linux_fs.as_slice()) {
            String::from_str("Linux filesystem data")
        } else if bytes_eq(self.type_guid.as_slice(), efi_system.as_slice()) {
            String::from_str("EFI System Partition")
        } else {
            String::from_str("Unknown")
        }
    }
}

/// On-disk bytes of the Linux-filesystem-data partition-type GUID.
pub open spec fn linux_fs_type_guid() -> Seq<u8> {
    seq![0xAFu8, 0x3Du8, 0xC6u8, 0x0Fu8, 0x83u8, 0x84u8, 0x72u8, 0x47u8, 0x8Eu8, 0x79u8, 0x3Du8,
        0x69u8, 0xD8u8, 0x47u8, 0x7Du8, 0xE4u8]
}

/// On-disk bytes of the EFI-System-Partition partition-type GUID.
pub open spec fn efi_system_type_guid() -> Seq<u8> {
    seq![0x28u8, 0x73u8, 0x2Au8, 0xC1u8, 0x1Fu8, 0xF8u8, 0xD2u8, 0x11u8, 0xBAu8, 0x4Bu8, 0x00u8,
        0xA0u8, 0xC9u8, 0x3Eu8, 0xC9u8, 0x3Bu8]
}

/// Text of `part_type_repr`.
pub open spec fn part_type_label(p: PartView) -> Seq<char> {
    if p.type_guid == linux_fs_type_guid() {
        "Linux filesystem data"@
    } else if p.type_guid == efi_system_type_guid() {
        "EFI System Partition"@
    } else {
        "Unknown"@
    }
}

/// The all-zero partition entry.
pub open spec fn part_zeroed() -> PartView {
    PartView {
        type_guid: zero_bytes(16),
        unique_partition_guid: zero_bytes(16),
        starting_lba: 0,
        ending_lba: 0,
        attributes: 0,
        name: zero_bytes(72),
    }
}

impl Default for GptPart {
    /// The all-zero (empty) entry.
    fn default() -> (r: GptPart)
        ensures
            r@ == part_zeroed(),
            r@.wf(),
    {
        GptPart {
            type_guid: zeroed_vec(16),
            unique_partition_guid: zeroed_vec(16),
            starting_lba: 0,
            ending_lba: 0,
            attributes: 0,
            name: zeroed_vec(72),
        }
    }
}

} // verus!
