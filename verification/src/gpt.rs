//! The GPT aggregate and its pipeline over a byte-addressable image:
//! sequential load (Protective MBR, then header, then the entry array, each
//! structure advanced to its block or stride boundary), validation of
//! signatures, sizes and checksums, identity regeneration for the write
//! path, and byte-exact store.
//!
//! The image layout, with the conventional 512-byte block: the Protective
//! MBR fills bytes 0..512; the 92-byte header starts the next block at 512
//! and is padded to 1024; entry `i` occupies 128 bytes at
//! `1024 + i * stride`, where the stride is the header's declared entry
//! size, at least 128 when any entries are present.

use vstd::prelude::*;
use vstd::arithmetic::mul::{lemma_mul_inequality, lemma_mul_upper_bound};
use vstd::bytes::{lemma_auto_spec_u16_to_from_le_bytes, lemma_auto_spec_u32_to_from_le_bytes,
    lemma_auto_spec_u64_to_from_le_bytes};
use vstd::slice::slice_subrange;

use crate::header::{GptHeader, HeaderView, header_enc, header_parse, header_self_crc,
    lemma_header_enc_parse, lemma_header_parse_enc, lemma_self_crc_ignores_crc_field};
use crate::mbr::{MbrView, ProtectiveMBR, lemma_mbr_enc_parse, lemma_mbr_parse_enc, mbr_enc, mbr_parse};
use crate::part::{GptPart, PartView, lemma_part_enc_len, lemma_part_enc_parse,
    lemma_part_parse_enc, part_enc, part_is_empty, part_parse, part_views, parts_wf,
    spec_table_crc32, table_crc32};
use crate::util::{bytes_to_vec, lemma_subrange_concat, zero_bytes, zeroed_vec};

verus! {

// ---------------------------------------------------------------------------
// Data model
// ---------------------------------------------------------------------------

/// A whole partition table: one Protective MBR, one header, and the ordered
/// entry array.
pub struct Gpt {
    pub pmbr: ProtectiveMBR,
    pub header: GptHeader,
    pub parts: Vec<GptPart>,
}

/// Mathematical model of a partition table.
#[verifier::ext_equal]
pub ghost struct GptView {
    pub pmbr: MbrView,
    pub header: HeaderView,
    pub parts: Seq<PartView>,
}

impl View for Gpt {
    type V = GptView;

    open spec fn view(&self) -> GptView {
        GptView { pmbr: self.pmbr@, header: self.header@, parts: part_views(self.parts@) }
    }
}

impl GptView {
    /// Records well-formed, entry count matching the header, and the
    /// declared stride wide enough for an entry whenever any are present.
    pub open spec fn wf(self) -> bool {
        &&& self.pmbr.wf()
        &&& self.header.wf()
        &&& parts_wf(self.parts)
        &&& self.parts.len() == self.header.partition_entries
        &&& self.parts.len() > 0 ==> self.header.partition_entry_size >= 128
    }
}

/// Why a load gave up. Format findings (bad signatures, stale checksums)
/// never stop a load; only a stream too short for the structures it
/// declares, or an entry stride too small to hold an entry, do.
#[derive(Clone, Copy, PartialEq, Eq, Structural, Debug)]
pub enum LoadError {
    /// The image ends before the structures its header declares.
    TooShort,
    /// The declared per-entry stride is smaller than an entry's 128 encoded
    /// bytes.
    EntrySizeTooSmall,
}

/// One finding per consistency rule; each is judged independently, and none
/// aborts the others.
#[derive(Clone, Copy, PartialEq, Eq, Structural, Debug)]
pub struct GptValidation {
    pub pmbr_signature_ok: bool,
    pub header_signature_ok: bool,
    pub header_size_ok: bool,
    pub header_crc_ok: bool,
    pub table_crc_ok: bool,
}

impl GptValidation {
    /// Whether every finding is valid.
    pub fn all_valid(&self) -> (r: bool)
        ensures
            r == (self.pmbr_signature_ok && self.header_signature_ok && self.header_size_ok
                && self.header_crc_ok && self.table_crc_ok),
    {
        self.pmbr_signature_ok && self.header_signature_ok && self.header_size_ok
            && self.header_crc_ok && self.table_crc_ok
    }
}

// ---------------------------------------------------------------------------
// Image layout
// ---------------------------------------------------------------------------

/// The header an image declares, decoded from bytes 512..604.
pub open spec fn image_header(s: Seq<u8>) -> HeaderView
    recommends
        s.len() >= 604,
{
    header_parse(s.subrange(512, 604))
}

/// Byte offset of entry `i` in an image.
pub open spec fn entry_offset(s: Seq<u8>, i: int) -> int {
    1024 + i * (image_header(s).partition_entry_size as int)
}

/// The image length the declared header requires: through the last declared
/// entry's 128 encoded bytes.
pub open spec fn load_needed_len(s: Seq<u8>) -> int {
    if image_header(s).partition_entries == 0 {
        1024
    } else {
        entry_offset(s, image_header(s).partition_entries - 1) + 128
    }
}

/// Whether an image is long enough, with a wide enough declared stride, for
/// every structure its header declares.
pub open spec fn load_ok(s: Seq<u8>) -> bool {
    &&& s.len() >= 1024
    &&& (image_header(s).partition_entries > 0 ==> image_header(s).partition_entry_size >= 128
        && s.len() >= load_needed_len(s))
}

/// The partition table a loadable image holds.
pub open spec fn load_val(s: Seq<u8>) -> GptView
    recommends
        load_ok(s),
{
    GptView {
        pmbr: mbr_parse(s.subrange(0, 512)),
        header: image_header(s),
        parts: Seq::new(
            image_header(s).partition_entries as nat,
            |i: int| part_parse(s.subrange(entry_offset(s, i), entry_offset(s, i) + 128)),
        ),
    }
}

/// Padded on-disk bytes of the entry array: each entry's 128 bytes followed
/// by zeros up to the stride.
pub open spec fn parts_image(parts: Seq<PartView>, stride: int) -> Seq<u8>
    decreases parts.len(),
{
    if parts.len() == 0 {
        Seq::empty()
    } else {
        parts_image(parts.drop_last(), stride) + part_enc(parts.last())
            + zero_bytes((stride - 128) as nat)
    }
}

/// The serialized image of a partition table.
pub open spec fn image(g: GptView) -> Seq<u8> {
    mbr_enc(g.pmbr) + header_enc(g.header) + zero_bytes(420)
        + parts_image(g.parts, g.header.partition_entry_size as int)
}

/// The length of the serialized image.
pub open spec fn image_len(g: GptView) -> int {
    1024 + g.parts.len() * (g.header.partition_entry_size as int)
}

/// The padded entry array of well-formed entries is `len * stride` bytes.
pub proof fn lemma_parts_image_len(parts: Seq<PartView>, stride: int)
    requires
        parts_wf(parts),
        parts.len() > 0 ==> stride >= 128,
    ensures
        parts_image(parts, stride).len() == parts.len() * stride,
    decreases parts.len(),
{
    if parts.len() == 0 {
    } else {
        assert(parts_wf(parts.drop_last())) by {
            assert(forall|i: int| 0 <= i < parts.len() - 1
                ==> (#[trigger] parts.drop_last()[i]) == parts[i]);
        }
        lemma_parts_image_len(parts.drop_last(), stride);
        lemma_part_enc_len(parts.last());
        assert((parts.len() - 1) * stride + stride == parts.len() * stride) by (nonlinear_arith);
    }
}

/// What a loadable image yields is a well-formed partition table.
pub proof fn lemma_load_val_wf(s: Seq<u8>)
    requires
        load_ok(s),
    ensures
        load_val(s).wf(),
{
    let g = load_val(s);
    let n = image_header(s).partition_entries as int;
    let stride = image_header(s).partition_entry_size as int;
    assert forall|i: int| 0 <= i < g.parts.len() implies (#[trigger] g.parts[i]).wf() by {
        lemma_mul_inequality(i, n - 1, stride);
        assert(entry_offset(s, i) + 128 <= s.len());
    }
}

// ---------------------------------------------------------------------------
// Load
// ---------------------------------------------------------------------------

/// Load a partition table from an image: the Protective MBR at offset 0,
/// the header at the next block boundary, then exactly the declared number
/// of entries at the declared stride. Format findings never stop a load;
/// they are left to `validate`.
pub fn load(bytes: &[u8]) -> (r: Result<Gpt, LoadError>)
    ensures
        r is Ok <==> load_ok(bytes@),
        r matches Ok(g) ==> g@ == load_val(bytes@) && g@.wf(),
        bytes@.len() < 1024 ==> r == Err::<Gpt, LoadError>(LoadError::TooShort),
        bytes@.len() >= 1024 && image_header(bytes@).partition_entries > 0 && image_header(
            bytes@,
        ).partition_entry_size < 128 ==> r == Err::<Gpt, LoadError>(LoadError::EntrySizeTooSmall),
        bytes@.len() >= 1024 && image_header(bytes@).partition_entries > 0 && image_header(
            bytes@,
        ).partition_entry_size >= 128 && bytes@.len() < load_needed_len(bytes@) ==> r
            == Err::<Gpt, LoadError>(LoadError::TooShort),
{
    if bytes.len() < 1024 {
        return Err(LoadError::TooShort);
    }
    let pmbr = ProtectiveMBR::parse(slice_subrange(bytes, 0, 512));
    let header = GptHeader::parse(slice_subrange(bytes, 512, 604));
    let n32 = header.partition_entries;
    let stride32 = header.partition_entry_size;
    if n32 > 0 {
        if stride32 < 128 {
            return Err(LoadError::EntrySizeTooSmall);
        }
        proof {
            lemma_mul_upper_bound((n32 - 1) as int, 0xFFFF_FFFE, stride32 as int, 0xFFFF_FFFF);
        }
        let needed: u64 = 1024u64 + (n32 - 1) as u64 * stride32 as u64 + 128u64;
        if (bytes.len() as u64) < needed {
            return Err(LoadError::TooShort);
        }
    }
    let n = n32 as usize;
    let stride = stride32 as usize;
    let mut parts: Vec<GptPart> = Vec::new();
    let mut i: usize = 0;
    proof {
        assert(part_views(parts@) =~= load_val(bytes@).parts.take(0));
    }
    while i < n
        invariant
            i <= n,
            bytes@.len() <= usize::MAX,
            n == image_header(bytes@).partition_entries,
            stride == image_header(bytes@).partition_entry_size,
            n > 0 ==> stride >= 128 && 1024 + (n - 1) * stride + 128 <= bytes@.len(),
            part_views(parts@) == load_val(bytes@).parts.take(i as int),
        decreases n - i,
    {
        proof {
            lemma_mul_inequality(i as int, (n - 1) as int, stride as int);
        }
        let off = 1024 + i * stride;
        let entry = GptPart::parse(slice_subrange(bytes, off, off + 128));
        let ghost prev = parts@;
        parts.push(entry);
        i = i + 1;
        proof {
            let ghost target = load_val(bytes@).parts;
            assert(parts@ == prev.push(entry));
            assert(part_views(prev).len() == prev.len());
            assert(prev.len() == i - 1);
            assert(parts@.len() == i);
            assert forall|j: int| 0 <= j < i implies part_views(parts@)[j] == target.take(
                i as int,
            )[j] by {
                assert(part_views(parts@)[j] == parts@[j]@);
                if j < i - 1 {
                    assert(parts@[j] == prev[j]);
                    assert(part_views(prev)[j] == prev[j]@);
                } else {
                    assert(parts@[j] == entry);
                }
            }
            assert(part_views(parts@) =~= load_val(bytes@).parts.take(i as int));
        }
    }
    let gpt = Gpt { pmbr, header, parts };
    proof {
        assert(load_val(bytes@).parts.take(n as int) =~= load_val(bytes@).parts);
        assert(gpt@ =~= load_val(bytes@));
        lemma_load_val_wf(bytes@);
    }
    Ok(gpt)
}

// ---------------------------------------------------------------------------
// Validate
// ---------------------------------------------------------------------------

/// Judge every consistency rule of a loaded table independently: the PMBR
/// boot signature, the header signature, the declared header size, the
/// header's own CRC32, and the entry array's CRC32.
pub fn validate(g: &Gpt) -> (v: GptValidation)
    requires
        g@.wf(),
    ensures
        v.pmbr_signature_ok == g@.pmbr.signature_valid(),
        v.header_signature_ok == g@.header.signature_valid(),
        v.header_size_ok == g@.header.size_valid(),
        v.header_crc_ok == (g@.header.header_crc32 == header_self_crc(g@.header)),
        v.table_crc_ok == (g@.header.partition_entry_crc32 == spec_table_crc32(g@.parts)),
{
    GptValidation {
        pmbr_signature_ok: g.pmbr.valid_signature(),
        header_signature_ok: g.header.is_signature_valid(),
        header_size_ok: g.header.header_size == 92,
        header_crc_ok: g.header.header_crc32 == g.header.crc32_self(),
        table_crc_ok: g.header.partition_entry_crc32 == table_crc32(&g.parts),
    }
}

// ---------------------------------------------------------------------------
// Store
// ---------------------------------------------------------------------------

/// Serialize a partition table: the Protective MBR, the header padded to
/// its block boundary, then every entry padded to the declared stride.
pub fn store(g: &Gpt) -> (out: Vec<u8>)
    requires
        g@.wf(),
    ensures
        out@ == image(g@),
        out@.len() == image_len(g@),
{
    let mut out = g.pmbr.encode();
    let mut hdr = g.header.encode();
    out.append(&mut hdr);
    let mut block_pad = zeroed_vec(420);
    out.append(&mut block_pad);
    let stride = g.header.partition_entry_size as usize;
    let n = g.parts.len();
    let ghost stride_spec = g@.header.partition_entry_size as int;
    let mut i: usize = 0;
    while i < n
        invariant
            i <= n,
            n == g@.parts.len(),
            g@.wf(),
            stride == stride_spec,
            stride_spec == g@.header.partition_entry_size,
            out@ == mbr_enc(g@.pmbr) + header_enc(g@.header) + zero_bytes(420) + parts_image(
                g@.parts.take(i as int),
                stride_spec,
            ),
        decreases n - i,
    {
        proof {
            assert(g@.parts[i as int] == g.parts@[i as int]@);
        }
        let mut entry = g.parts[i].encode();
        out.append(&mut entry);
        if stride > 128 {
            let mut entry_pad = zeroed_vec(stride - 128);
            out.append(&mut entry_pad);
        }
        i = i + 1;
        proof {
            assert(g@.parts.take(i as int).drop_last() =~= g@.parts.take(i - 1));
            assert(g@.parts.take(i as int).last() == g@.parts[i - 1]);
            assert(out@ =~= mbr_enc(g@.pmbr) + header_enc(g@.header) + zero_bytes(420)
                + parts_image(g@.parts.take(i as int), stride_spec));
        }
    }
    proof {
        assert(g@.parts.take(n as int) =~= g@.parts);
        lemma_parts_image_len(g@.parts, stride_spec);
    }
    out
}

// ---------------------------------------------------------------------------
// Regenerate identities
// ---------------------------------------------------------------------------

/// The entry array after regeneration: every non-empty entry takes the
/// fresh unique GUID at its index; every empty entry is left untouched.
pub open spec fn regen_parts(parts: Seq<PartView>, guids: Seq<Seq<u8>>) -> Seq<PartView>
    recommends
        guids.len() == parts.len(),
{
    Seq::new(
        parts.len(),
        |i: int|
            if part_is_empty(parts[i]) {
                parts[i]
            } else {
                PartView { unique_partition_guid: guids[i], ..parts[i] }
            },
    )
}

impl Gpt {
    /// Give the table fresh identities before a write: the disk GUID is
    /// replaced, every non-empty entry receives the fresh unique GUID
    /// supplied at its index (empty entries keep their zero GUIDs), and
    /// both checksums are recomputed over the mutated content — the entry
    /// array's first, then the header's own, which covers the updated
    /// entry-array checksum.
    pub fn regenerate_identities(&mut self, disk_guid: Vec<u8>, part_guids: &Vec<Vec<u8>>)
        requires
            old(self)@.wf(),
            disk_guid@.len() == 16,
            part_guids@.len() == old(self)@.parts.len(),
            forall|i: int| 0 <= i < part_guids@.len() ==> (#[trigger] part_guids@[i])@.len()
                == 16,
        ensures
            final(self)@.wf(),
            final(self)@.pmbr == old(self)@.pmbr,
            final(self)@.parts == regen_parts(old(self)@.parts, part_guids.deep_view()),
            final(self)@.header.disk_guid == disk_guid@,
            final(self)@.header.partition_entry_crc32 == spec_table_crc32(final(self)@.parts),
            final(self)@.header.header_crc32 == header_self_crc(final(self)@.header),
            final(self)@.header.signature == old(self)@.header.signature,
            final(self)@.header.revision_minor == old(self)@.header.revision_minor,
            final(self)@.header.revision_major == old(self)@.header.revision_major,
            final(self)@.header.header_size == old(self)@.header.header_size,
            final(self)@.header.reserved == old(self)@.header.reserved,
            final(self)@.header.current_lba == old(self)@.header.current_lba,
            final(self)@.header.backup_lba == old(self)@.header.backup_lba,
            final(self)@.header.first_usable_lba == old(self)@.header.first_usable_lba,
            final(self)@.header.last_usable_lba == old(self)@.header.last_usable_lba,
            final(self)@.header.partition_entry_lba == old(self)@.header.partition_entry_lba,
            final(self)@.header.partition_entries == old(self)@.header.partition_entries,
            final(self)@.header.partition_entry_size == old(self)@.header.partition_entry_size,
    {
        let ghost old_parts = self@.parts;
        let ghost gview = part_guids.deep_view();
        let n = self.parts.len();
        let mut new_parts: Vec<GptPart> = Vec::new();
        let mut i: usize = 0;
        proof {
            assert(part_views(new_parts@) =~= regen_parts(old_parts, gview).take(0));
        }
        while i < n
            invariant
                i <= n,
                n == old_parts.len(),
                old_parts == part_views(self.parts@),
                parts_wf(old_parts),
                gview == part_guids.deep_view(),
                gview.len() == n,
                forall|j: int| 0 <= j < part_guids@.len() ==> (#[trigger] part_guids@[j])@.len()
                    == 16,
                part_views(new_parts@) == regen_parts(old_parts, gview).take(i as int),
                parts_wf(part_views(new_parts@)),
            decreases n - i,
        {
            proof {
                assert(old_parts[i as int] == self.parts@[i as int]@);
                assert(part_guids.deep_view()[i as int] == part_guids@[i as int]@);
            }
            let p = &self.parts[i];
            let empty = p.is_empty();
            let fresh_guid: Vec<u8> = if empty {
                bytes_to_vec(p.unique_partition_guid.as_slice())
            } else {
                bytes_to_vec(part_guids[i].as_slice())
            };
            let np = GptPart {
                type_guid: bytes_to_vec(p.type_guid.as_slice()),
                unique_partition_guid: fresh_guid,
                starting_lba: p.starting_lba,
                ending_lba: p.ending_lba,
                attributes: p.attributes,
                name: bytes_to_vec(p.name.as_slice()),
            };
            let ghost prev = new_parts@;
            new_parts.push(np);
            i = i + 1;
            proof {
                let ghost target = regen_parts(old_parts, gview);
                assert(new_parts@ == prev.push(np));
                assert(part_views(prev).len() == prev.len());
                assert(prev.len() == i - 1);
                assert(np@ =~= target[i - 1]);
                assert forall|j: int| 0 <= j < i implies part_views(new_parts@)[j] == target.take(
                    i as int,
                )[j] by {
                    assert(part_views(new_parts@)[j] == new_parts@[j]@);
                    if j < i - 1 {
                        assert(new_parts@[j] == prev[j]);
                        assert(part_views(prev)[j] == prev[j]@);
                    } else {
                        assert(new_parts@[j] == np);
                    }
                }
                assert(part_views(new_parts@) =~= target.take(i as int));
                assert forall|j: int| 0 <= j < i implies (#[trigger] part_views(new_parts@)[j]).wf()
                    by {
                    assert(part_views(new_parts@)[j] == target.take(i as int)[j]);
                    assert(old_parts[j].wf());
                }
            }
        }
        proof {
            assert(regen_parts(old_parts, gview).take(n as int) =~= regen_parts(old_parts, gview));
        }
        self.parts = new_parts;
        self.header.disk_guid = disk_guid;
        let table_crc = table_crc32(&self.parts);
        self.header.partition_entry_crc32 = table_crc;
        let ghost mid_header = self.header@;
        let own_crc = self.header.crc32_self();
        self.header.header_crc32 = own_crc;
        proof {
            assert(self.header@ =~= HeaderView { header_crc32: own_crc, ..mid_header });
            lemma_self_crc_ignores_crc_field(mid_header, own_crc);
        }
    }
}

/// Law: regeneration with fresh unique GUIDs that are pairwise distinct and
/// avoid every prior unique GUID leaves every previously empty entry
/// untouched (hence still empty), and gives every previously non-empty
/// entry a unique GUID distinct from its prior value and from every
/// sibling's.
pub proof fn lemma_regen_parts_unique(parts: Seq<PartView>, guids: Seq<Seq<u8>>)
    requires
        guids.len() == parts.len(),
        forall|i: int, j: int| 0 <= i < j < guids.len() ==> guids[i] != guids[j],
        forall|i: int, j: int|
            0 <= i < guids.len() && 0 <= j < parts.len() ==> #[trigger] guids[i] != (
            #[trigger] parts[j]).unique_partition_guid,
    ensures
        regen_parts(parts, guids).len() == parts.len(),
        forall|i: int|
            0 <= i < parts.len() && part_is_empty(#[trigger] parts[i]) ==> regen_parts(
                parts,
                guids,
            )[i] == parts[i] && part_is_empty(regen_parts(parts, guids)[i]),
        forall|i: int|
            0 <= i < parts.len() && !part_is_empty(#[trigger] parts[i]) ==> regen_parts(
                parts,
                guids,
            )[i].unique_partition_guid != parts[i].unique_partition_guid,
        forall|i: int, j: int|
            0 <= i < parts.len() && 0 <= j < parts.len() && i != j && !part_is_empty(
                #[trigger] parts[i],
            ) ==> regen_parts(parts, guids)[i].unique_partition_guid != (
            #[trigger] regen_parts(parts, guids)[j]).unique_partition_guid,
{
    let r = regen_parts(parts, guids);
    assert forall|i: int|
        0 <= i < parts.len() && !part_is_empty(#[trigger] parts[i]) implies r[
    i].unique_partition_guid != parts[i].unique_partition_guid by {
        assert(r[i].unique_partition_guid == guids[i]);
        assert(guids[i] != parts[i].unique_partition_guid);
    }
    assert forall|i: int, j: int|
        0 <= i < parts.len() && 0 <= j < parts.len() && i != j && !part_is_empty(
            #[trigger] parts[i],
        ) implies r[i].unique_partition_guid != (#[trigger] r[j]).unique_partition_guid by {
        assert(r[i].unique_partition_guid == guids[i]);
        if part_is_empty(parts[j]) {
            assert(r[j] == parts[j]);
            assert(guids[i] != parts[j].unique_partition_guid);
        } else {
            assert(r[j].unique_partition_guid == guids[j]);
            if i < j {
                assert(guids[i] != guids[j]);
            } else {
                assert(guids[j] != guids[i]);
            }
        }
    }
}

// ---------------------------------------------------------------------------
// Round trip
// ---------------------------------------------------------------------------

/// A well-formed image: loadable, exactly as long as its own serialization,
/// and zero-padded between the header and the next block as well as from
/// each entry's 128 encoded bytes up to the declared stride.
pub open spec fn well_formed_image(s: Seq<u8>) -> bool {
    &&& load_ok(s)
    &&& s.len() == image_len(load_val(s))
    &&& s.subrange(604, 1024) == zero_bytes(420)
    &&& forall|i: int|
        0 <= i < load_val(s).parts.len() ==> s.subrange(
            #[trigger] entry_offset(s, i) + 128,
            entry_offset(s, i) + image_header(s).partition_entry_size,
        ) == zero_bytes((image_header(s).partition_entry_size - 128) as nat)
}

/// The padded entry-array image of the first `k` loaded entries equals the
/// corresponding byte range of a well-formed image.
proof fn lemma_parts_image_slice(s: Seq<u8>, k: int)
    requires
        well_formed_image(s),
        0 <= k <= load_val(s).parts.len(),
    ensures
        parts_image(load_val(s).parts.take(k), image_header(s).partition_entry_size as int)
            == s.subrange(1024, 1024 + k * (image_header(s).partition_entry_size as int)),
    decreases k,
{
    let g = load_val(s);
    let stride = image_header(s).partition_entry_size as int;
    let n = g.parts.len() as int;
    assert(n * stride + 1024 == s.len());
    if k == 0 {
        assert(g.parts.take(0) =~= Seq::<PartView>::empty());
        assert(Seq::<u8>::empty() =~= s.subrange(1024, 1024));
    } else {
        lemma_parts_image_slice(s, k - 1);
        let off = entry_offset(s, k - 1);
        lemma_mul_inequality(k, n, stride);
        lemma_mul_inequality(0, k - 1, stride);
        assert((k - 1) * stride + stride == k * stride) by (nonlinear_arith);
        assert(g.parts[k - 1] == part_parse(s.subrange(off, off + 128)));
        lemma_part_enc_parse(s.subrange(off, off + 128));
        assert(s.subrange(off + 128, off + stride) == zero_bytes((stride - 128) as nat));
        assert(g.parts.take(k).drop_last() =~= g.parts.take(k - 1));
        assert(g.parts.take(k).last() == g.parts[k - 1]);
        lemma_subrange_concat(s, 1024, off, off + 128);
        lemma_subrange_concat(s, 1024, off + 128, off + stride);
        assert(parts_image(g.parts.take(k), stride) =~= s.subrange(1024, 1024 + k * stride));
    }
}

/// Within the padded entry-array image, entry `i`'s 128 bytes sit at
/// `i * stride`.
proof fn lemma_parts_image_entry(parts: Seq<PartView>, stride: int, i: int)
    requires
        parts_wf(parts),
        stride >= 128,
        0 <= i < parts.len(),
    ensures
        parts_image(parts, stride).subrange(i * stride, i * stride + 128) == part_enc(parts[i]),
    decreases parts.len(),
{
    let n = parts.len() as int;
    assert(parts_wf(parts.drop_last())) by {
        assert(forall|j: int| 0 <= j < parts.len() - 1
            ==> (#[trigger] parts.drop_last()[j]) == parts[j]);
    }
    lemma_parts_image_len(parts, stride);
    lemma_parts_image_len(parts.drop_last(), stride);
    lemma_part_enc_len(parts.last());
    assert((n - 1) * stride + stride == n * stride) by (nonlinear_arith);
    lemma_mul_inequality(0, i, stride);
    if i == n - 1 {
        assert(parts_image(parts, stride).subrange(i * stride, i * stride + 128) =~= part_enc(
            parts[i],
        ));
    } else {
        lemma_parts_image_entry(parts.drop_last(), stride, i);
        lemma_mul_inequality(i + 1, n - 1, stride);
        assert((i + 1) * stride == i * stride + stride) by (nonlinear_arith);
        assert(parts_image(parts, stride).subrange(i * stride, i * stride + 128) =~= parts_image(
            parts.drop_last(),
            stride,
        ).subrange(i * stride, i * stride + 128));
    }
}

/// Within the padded entry-array image, the bytes after entry `i`'s 128
/// encoded bytes, up to the stride, are zero.
proof fn lemma_parts_image_pad(parts: Seq<PartView>, stride: int, i: int)
    requires
        parts_wf(parts),
        stride >= 128,
        0 <= i < parts.len(),
    ensures
        parts_image(parts, stride).subrange(i * stride + 128, (i + 1) * stride) == zero_bytes(
            (stride - 128) as nat,
        ),
    decreases parts.len(),
{
    let n = parts.len() as int;
    assert(parts_wf(parts.drop_last())) by {
        assert(forall|j: int| 0 <= j < parts.len() - 1
            ==> (#[trigger] parts.drop_last()[j]) == parts[j]);
    }
    lemma_parts_image_len(parts, stride);
    lemma_parts_image_len(parts.drop_last(), stride);
    lemma_part_enc_len(parts.last());
    assert((n - 1) * stride + stride == n * stride) by (nonlinear_arith);
    assert((i + 1) * stride == i * stride + stride) by (nonlinear_arith);
    lemma_mul_inequality(0, i, stride);
    if i == n - 1 {
        assert(parts_image(parts, stride).subrange(i * stride + 128, (i + 1) * stride)
            =~= zero_bytes((stride - 128) as nat));
    } else {
        lemma_parts_image_pad(parts.drop_last(), stride, i);
        lemma_mul_inequality(i + 1, n - 1, stride);
        assert(parts_image(parts, stride).subrange(i * stride + 128, (i + 1) * stride)
            =~= parts_image(parts.drop_last(), stride).subrange(i * stride + 128, (i + 1)
            * stride));
    }
}

/// Law: loading a stored table reproduces the table; storing and reloading
/// is the identity on well-formed tables.
pub proof fn lemma_load_store_roundtrip(g: GptView)
    requires
        g.wf(),
    ensures
        load_ok(image(g)),
        load_val(image(g)) == g,
{
    let s = image(g);
    let stride = g.header.partition_entry_size as int;
    let n = g.parts.len() as int;
    lemma_auto_spec_u16_to_from_le_bytes();
    lemma_auto_spec_u32_to_from_le_bytes();
    lemma_auto_spec_u64_to_from_le_bytes();
    lemma_parts_image_len(g.parts, stride);
    assert(mbr_enc(g.pmbr).len() == 512);
    assert(header_enc(g.header).len() == 92);
    assert(s.subrange(0, 512) =~= mbr_enc(g.pmbr));
    assert(s.subrange(512, 604) =~= header_enc(g.header));
    lemma_mbr_parse_enc(g.pmbr);
    lemma_header_parse_enc(g.header);
    assert(image_header(s) == g.header);
    if n > 0 {
        assert((n - 1) * stride + stride == n * stride) by (nonlinear_arith);
        lemma_mul_inequality(0, n - 1, stride);
        assert(load_needed_len(s) <= s.len());
    }
    assert(load_ok(s));
    assert forall|i: int| 0 <= i < n implies load_val(s).parts[i] == g.parts[i] by {
        lemma_mul_inequality(i + 1, n, stride);
        assert((i + 1) * stride == i * stride + stride) by (nonlinear_arith);
        lemma_mul_inequality(0, i, stride);
        assert(s.subrange(entry_offset(s, i), entry_offset(s, i) + 128) =~= parts_image(
            g.parts,
            stride,
        ).subrange(i * stride, i * stride + 128));
        lemma_parts_image_entry(g.parts, stride, i);
        lemma_part_parse_enc(g.parts[i]);
    }
    assert(load_val(s) =~= g);
}

/// Law: what `store` serializes from a well-formed table is itself a
/// well-formed image, so re-serialization round trips compose.
pub proof fn lemma_store_well_formed(g: GptView)
    requires
        g.wf(),
    ensures
        well_formed_image(image(g)),
{
    let s = image(g);
    let stride = g.header.partition_entry_size as int;
    let n = g.parts.len() as int;
    lemma_load_store_roundtrip(g);
    lemma_auto_spec_u16_to_from_le_bytes();
    lemma_auto_spec_u32_to_from_le_bytes();
    lemma_auto_spec_u64_to_from_le_bytes();
    lemma_parts_image_len(g.parts, stride);
    assert(mbr_enc(g.pmbr).len() == 512);
    assert(header_enc(g.header).len() == 92);
    assert(s.subrange(604, 1024) =~= zero_bytes(420));
    assert forall|i: int| 0 <= i < load_val(s).parts.len() implies s.subrange(
        #[trigger] entry_offset(s, i) + 128,
        entry_offset(s, i) + image_header(s).partition_entry_size,
    ) == zero_bytes((image_header(s).partition_entry_size - 128) as nat) by {
        lemma_mul_inequality(i + 1, n, stride);
        assert((i + 1) * stride == i * stride + stride) by (nonlinear_arith);
        lemma_mul_inequality(0, i, stride);
        assert(s.subrange(entry_offset(s, i) + 128, entry_offset(s, i) + stride) =~= parts_image(
            g.parts,
            stride,
        ).subrange(i * stride + 128, (i + 1) * stride));
        lemma_parts_image_pad(g.parts, stride, i);
    }
}

/// Law: re-serializing a loaded well-formed image reproduces it byte for
/// byte; loading and storing without regenerating identities is the
/// identity on such images.
pub proof fn lemma_store_load_roundtrip(s: Seq<u8>)
    requires
        well_formed_image(s),
    ensures
        image(load_val(s)) == s,
{
    let g = load_val(s);
    let stride = image_header(s).partition_entry_size as int;
    let n = g.parts.len() as int;
    lemma_mbr_enc_parse(s.subrange(0, 512));
    lemma_header_enc_parse(s.subrange(512, 604));
    lemma_parts_image_slice(s, n);
    assert(g.parts.take(n) =~= g.parts);
    lemma_subrange_concat(s, 0, 512, 604);
    lemma_subrange_concat(s, 0, 604, 1024);
    lemma_subrange_concat(s, 0, 1024, s.len() as int);
    assert(s.subrange(0, s.len() as int) =~= s);
    assert(image(g) =~= s);
}

} // verus!
