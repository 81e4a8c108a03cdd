//! Shared helpers: byte-sequence utilities, the zlib-variant CRC32 engine,
//! hexadecimal and decimal text rendering, and canonical GUID formatting.

use vstd::prelude::*;
use vstd::string::StringExecFns;

verus! {

// ---------------------------------------------------------------------------
// Byte-sequence helpers
// ---------------------------------------------------------------------------

/// A sequence of `n` zero bytes.
pub open spec fn zero_bytes(n: nat) -> Seq<u8> {
    Seq::new(n, |i: int| 0u8)
}

/// Build a vector of `n` zero bytes.
pub fn zeroed_vec(n: usize) -> (r: Vec<u8>)
    ensures
        r@ == zero_bytes(n as nat),
{
    let mut r: Vec<u8> = Vec::new();
    let mut i: usize = 0;
    while i < n
        invariant
            i <= n,
            r@ == zero_bytes(i as nat),
        decreases n - i,
    {
        r.push(0);
        i = i + 1;
        proof {
            assert(r@ =~= zero_bytes(i as nat));
        }
    }
    r
}

/// Copy the bytes of a slice into a fresh vector.
pub fn bytes_to_vec(src: &[u8]) -> (r: Vec<u8>)
    ensures
        r@ == src@,
{
    vstd::slice::slice_to_vec(src)
}

/// Append every byte of `src` to `out`.
pub fn append_bytes(out: &mut Vec<u8>, src: &[u8])
    ensures
        final(out)@ == old(out)@ + src@,
{
    let n = src.len();
    let mut i: usize = 0;
    while i < n
        invariant
            i <= n,
            n == src@.len(),
            out@ == old(out)@ + src@.take(i as int),
        decreases n - i,
    {
        out.push(src[i]);
        i = i + 1;
        proof {
            assert(out@ =~= old(out)@ + src@.take(i as int));
        }
    }
    proof {
        assert(src@.take(n as int) =~= src@);
    }
}

/// Whether every byte of a sequence is zero.
pub open spec fn all_zero(s: Seq<u8>) -> bool {
    forall|i: int| 0 <= i < s.len() ==> s[i] == 0
}

/// Check that every byte of a slice is zero.
pub fn is_all_zero(v: &[u8]) -> (r: bool)
    ensures
        r == all_zero(v@),
{
    let n = v.len();
    let mut i: usize = 0;
    while i < n
        invariant
            i <= n,
            n == v@.len(),
            forall|j: int| 0 <= j < i ==> v@[j] == 0,
        decreases n - i,
    {
        if v[i] != 0 {
            return false;
        }
        i = i + 1;
    }
    true
}

/// Compare two byte slices for equality.
pub fn bytes_eq(a: &[u8], b: &[u8]) -> (r: bool)
    ensures
        r == (a@ == b@),
{
    let n = a.len();
    if n != b.len() {
        return false;
    }
    let mut i: usize = 0;
    while i < n
        invariant
            i <= n,
            n == a@.len(),
            n == b@.len(),
            forall|j: int| 0 <= j < i ==> a@[j] == b@[j],
        decreases n - i,
    {
        if a[i] != b[i] {
            return false;
        }
        i = i + 1;
    }
    proof {
        assert(a@ =~= b@);
    }
    true
}

/// Two adjacent subranges concatenate to the enclosing subrange.
pub proof fn lemma_subrange_concat(s: Seq<u8>, a: int, b: int, c: int)
    requires
        0 <= a <= b <= c <= s.len(),
    ensures
        s.subrange(a, b) + s.subrange(b, c) == s.subrange(a, c),
{
    assert(s.subrange(a, b) + s.subrange(b, c) =~= s.subrange(a, c));
}

// ---------------------------------------------------------------------------
// CRC32, zlib / IEEE 802.3 variant: polynomial 0xEDB88320, register seeded
// with all ones, final bitwise complement.
// ---------------------------------------------------------------------------

/// One division round: shift right, folding the polynomial in when the low
/// bit is set.
pub open spec fn crc_round(c: u32) -> u32 {
    if c & 1 == 1 {
        (c >> 1) ^ 0xEDB8_8320u32
    } else {
        c >> 1
    }
}

/// `n` division rounds applied to `c`.
pub open spec fn crc_rounds(c: u32, n: nat) -> u32
    decreases n,
{
    if n == 0 {
        c
    } else {
        crc_round(crc_rounds(c, (n - 1) as nat))
    }
}

/// Fold one input byte into the register.
pub open spec fn crc_update(reg: u32, b: u8) -> u32 {
    crc_rounds((reg & 0xFF) ^ (b as u32), 8) ^ (reg >> 8)
}

/// Register value after absorbing all of `s`, starting from all ones.
pub open spec fn crc_register(s: Seq<u8>) -> u32
    decreases s.len(),
{
    if s.len() == 0 {
        0xFFFF_FFFFu32
    } else {
        crc_update(crc_register(s.drop_last()), s.last())
    }
}

/// The CRC32 of a byte sequence: the absorbed register, complemented.
pub open spec fn spec_crc32(s: Seq<u8>) -> u32 {
    !crc_register(s)
}

/// CRC32 over a byte slice (zlib variant).
pub fn crc32(buf: &[u8]) -> (r: u32)
    ensures
        r == spec_crc32(buf@),
{
    let n = buf.len();
    let mut reg: u32 = 0xFFFF_FFFF;
    let mut i: usize = 0;
    while i < n
        invariant
            i <= n,
            n == buf@.len(),
            reg == crc_register(buf@.take(i as int)),
        decreases n - i,
    {
        let b = buf[i];
        let start: u32 = (reg & 0xFF) ^ (b as u32);
        let mut control: u32 = start;
        let mut k: usize = 0;
        while k < 8
            invariant
                k <= 8,
                control == crc_rounds(start, k as nat),
        decreases 8 - k,
        {
            if control & 1 == 1 {
                control = (control >> 1) ^ 0xEDB8_8320;
            } else {
                control = control >> 1;
            }
            k = k + 1;
        }
        let prev = Ghost(buf@.take(i as int));
        reg = control ^ (reg >> 8);
        i = i + 1;
        proof {
            assert(buf@.take(i as int).drop_last() =~= prev@);
            assert(buf@.take(i as int).last() == b);
        }
    }
    proof {
        assert(buf@.take(n as int) =~= buf@);
    }
    !reg
}

// ---------------------------------------------------------------------------
// Hexadecimal and decimal text rendering
// ---------------------------------------------------------------------------

/// Lowercase hexadecimal digit for a nibble.
pub open spec fn hex_digit_lower(n: u8) -> char {
    if n == 0 { '0' } else if n == 1 { '1' } else if n == 2 { '2' } else if n == 3 { '3' }
    else if n == 4 { '4' } else if n == 5 { '5' } else if n == 6 { '6' } else if n == 7 { '7' }
    else if n == 8 { '8' } else if n == 9 { '9' } else if n == 10 { 'a' } else if n == 11 { 'b' }
    else if n == 12 { 'c' } else if n == 13 { 'd' } else if n == 14 { 'e' } else { 'f' }
}

/// Uppercase hexadecimal digit for a nibble.
pub open spec fn hex_digit_upper(n: u8) -> char {
    if n == 0 { '0' } else if n == 1 { '1' } else if n == 2 { '2' } else if n == 3 { '3' }
    else if n == 4 { '4' } else if n == 5 { '5' } else if n == 6 { '6' } else if n == 7 { '7' }
    else if n == 8 { '8' } else if n == 9 { '9' } else if n == 10 { 'A' } else if n == 11 { 'B' }
    else if n == 12 { 'C' } else if n == 13 { 'D' } else if n == 14 { 'E' } else { 'F' }
}

/// Two lowercase hexadecimal digits for a byte.
pub open spec fn byte_hex_lower(b: u8) -> Seq<char> {
    seq![hex_digit_lower(b / 16), hex_digit_lower(b % 16)]
}

/// Two uppercase hexadecimal digits for a byte.
pub open spec fn byte_hex_upper(b: u8) -> Seq<char> {
    seq![hex_digit_upper(b / 16), hex_digit_upper(b % 16)]
}

/// Append the lowercase hexadecimal digit of a nibble.
pub fn append_hex_digit_lower(s: &mut String, n: u8)
    requires
        n < 16,
    ensures
        final(s)@ == old(s)@ + seq![hex_digit_lower(n)],
{
    if n == 0 { proof { reveal_strlit("0"); } s.append("0"); }
    else if n == 1 { proof { reveal_strlit("1"); } s.append("1"); }
    else if n == 2 { proof { reveal_strlit("2"); } s.append("2"); }
    else if n == 3 { proof { reveal_strlit("3"); } s.append("3"); }
    else if n == 4 { proof { reveal_strlit("4"); } s.append("4"); }
    else if n == 5 { proof { reveal_strlit("5"); } s.append("5"); }
    else if n == 6 { proof { reveal_strlit("6"); } s.append("6"); }
    else if n == 7 { proof { reveal_strlit("7"); } s.append("7"); }
    else if n == 8 { proof { reveal_strlit("8"); } s.append("8"); }
    else if n == 9 { proof { reveal_strlit("9"); } s.append("9"); }
    else if n == 10 { proof { reveal_strlit("a"); } s.append("a"); }
    else if n == 11 { proof { reveal_strlit("b"); } s.append("b"); }
    else if n == 12 { proof { reveal_strlit("c"); } s.append("c"); }
    else if n == 13 { proof { reveal_strlit("d"); } s.append("d"); }
    else if n == 14 { proof { reveal_strlit("e"); } s.append("e"); }
    else { proof { reveal_strlit("f"); } s.append("f"); }
    proof {
        assert(s@ =~= old(s)@ + seq![hex_digit_lower(n)]);
    }
}

/// Append the uppercase hexadecimal digit of a nibble.
pub fn append_hex_digit_upper(s: &mut String, n: u8)
    requires
        n < 16,
    ensures
        final(s)@ == old(s)@ + seq![hex_digit_upper(n)],
{
    if n == 0 { proof { reveal_strlit("0"); } s.append("0"); }
    else if n == 1 { proof { reveal_strlit("1"); } s.append("1"); }
    else if n == 2 { proof { reveal_strlit("2"); } s.append("2"); }
    else if n == 3 { proof { reveal_strlit("3"); } s.append("3"); }
    else if n == 4 { proof { reveal_strlit("4"); } s.append("4"); }
    else if n == 5 { proof { reveal_strlit("5"); } s.append("5"); }
    else if n == 6 { proof { reveal_strlit("6"); } s.append("6"); }
    else if n == 7 { proof { reveal_strlit("7"); } s.append("7"); }
    else if n == 8 { proof { reveal_strlit("8"); } s.append("8"); }
    else if n == 9 { proof { reveal_strlit("9"); } s.append("9"); }
    else if n == 10 { proof { reveal_strlit("A"); } s.append("A"); }
    else if n == 11 { proof { reveal_strlit("B"); } s.append("B"); }
    else if n == 12 { proof { reveal_strlit("C"); } s.append("C"); }
    else if n == 13 { proof { reveal_strlit("D"); } s.append("D"); }
    else if n == 14 { proof { reveal_strlit("E"); } s.append("E"); }
    else { proof { reveal_strlit("F"); } s.append("F"); }
    proof {
        assert(s@ =~= old(s)@ + seq![hex_digit_upper(n)]);
    }
}

/// Append two lowercase hexadecimal digits for a byte.
pub fn append_hex_byte_lower(s: &mut String, b: u8)
    ensures
        final(s)@ == old(s)@ + byte_hex_lower(b),
{
    append_hex_digit_lower(s, b / 16);
    append_hex_digit_lower(s, b % 16);
    proof {
        assert(s@ =~= old(s)@ + byte_hex_lower(b));
    }
}

/// Append two uppercase hexadecimal digits for a byte.
pub fn append_hex_byte_upper(s: &mut String, b: u8)
    ensures
        final(s)@ == old(s)@ + byte_hex_upper(b),
{
    append_hex_digit_upper(s, b / 16);
    append_hex_digit_upper(s, b % 16);
    proof {
        assert(s@ =~= old(s)@ + byte_hex_upper(b));
    }
}

/// Decimal digits of `n`, most significant first.
pub open spec fn dec_chars(n: nat) -> Seq<char>
    decreases n,
{
    if n < 10 {
        seq![hex_digit_lower(n as u8)]
    } else {
        dec_chars(n / 10) + seq![hex_digit_lower((n % 10) as u8)]
    }
}

/// Append the decimal representation of `n`.
pub fn append_dec_u32(s: &mut String, n: u32)
    ensures
        final(s)@ == old(s)@ + dec_chars(n as nat),
    decreases n,
{
    if n < 10 {
        append_hex_digit_lower(s, n as u8);
    } else {
        append_dec_u32(s, n / 10);
        append_hex_digit_lower(s, (n % 10) as u8);
        proof {
            assert(s@ =~= old(s)@ + dec_chars(n as nat));
        }
    }
}

// ---------------------------------------------------------------------------
// GUID formatting. On disk the first three dash-delimited groups (4, 2 and 2
// bytes) are little-endian and are byte-reversed for display; the last two
// groups (2 and 6 bytes) are big-endian and keep their on-disk order.
// ---------------------------------------------------------------------------

/// Canonical lowercase text of a 16-byte on-disk GUID.
pub open spec fn guid_chars(s: Seq<u8>) -> Seq<char>
    recommends
        s.len() == 16,
{
    byte_hex_lower(s[3]) + byte_hex_lower(s[2]) + byte_hex_lower(s[1]) + byte_hex_lower(s[0])
        + "-"@ + byte_hex_lower(s[5]) + byte_hex_lower(s[4])
        + "-"@ + byte_hex_lower(s[7]) + byte_hex_lower(s[6])
        + "-"@ + byte_hex_lower(s[8]) + byte_hex_lower(s[9])
        + "-"@ + byte_hex_lower(s[10]) + byte_hex_lower(s[11]) + byte_hex_lower(s[12])
        + byte_hex_lower(s[13]) + byte_hex_lower(s[14]) + byte_hex_lower(s[15])
}

/// Append a dash.
fn append_dash(s: &mut String)
    ensures
        final(s)@ == old(s)@ + "-"@,
{
    s.append("-");
}

/// Format a 16-byte on-disk GUID in canonical lowercase form.
pub fn guid_to_string(guid: &[u8]) -> (r: String)
    requires
        guid@.len() == 16,
    ensures
        r@ == guid_chars(guid@),
{
    let mut r = String::new();
    append_hex_byte_lower(&mut r, guid[3]);
    append_hex_byte_lower(&mut r, guid[2]);
    append_hex_byte_lower(&mut r, guid[1]);
    append_hex_byte_lower(&mut r, guid[0]);
    append_dash(&mut r);
    append_hex_byte_lower(&mut r, guid[5]);
    append_hex_byte_lower(&mut r, guid[4]);
    append_dash(&mut r);
    append_hex_byte_lower(&mut r, guid[7]);
    append_hex_byte_lower(&mut r, guid[6]);
    append_dash(&mut r);
    append_hex_byte_lower(&mut r, guid[8]);
    append_hex_byte_lower(&mut r, guid[9]);
    append_dash(&mut r);
    append_hex_byte_lower(&mut r, guid[10]);
    append_hex_byte_lower(&mut r, guid[11]);
    append_hex_byte_lower(&mut r, guid[12]);
    append_hex_byte_lower(&mut r, guid[13]);
    append_hex_byte_lower(&mut r, guid[14]);
    append_hex_byte_lower(&mut r, guid[15]);
    proof {
        assert(r@ =~= guid_chars(guid@));
    }
    r
}

} // verus!
