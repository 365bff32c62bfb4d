//! The file version of a Windows executable, read from the fixed version
//! record (`VS_FIXEDFILEINFO`) in its resource section.
//!
//! Offsets are taken as mathematical integers, so no arithmetic on them
//! wraps.

use vstd::prelude::*;
use crate::decimal::{decimal, lemma_decimal_injective, lemma_decimal_is_digits, lemma_split_at_first_dot, push_decimal};
use crate::text::string_from_chars;

verus! {

/// Outcome of looking for the file version in an executable's bytes.
#[derive(Clone, Copy, Debug, PartialEq, Eq)]
pub enum VersionLookup {
    /// The version record was found; `ms` and `ls` are its two 32-bit
    /// file-version words (most and least significant).
    Found { ms: u32, ls: u32 },
    /// The bytes hold no version record that the reader reaches.
    Absent,
    /// The reader would index past the end of the bytes, or a section's
    /// data pointer plus size is below 16 and subtracting 16 underflows.
    Fault,
}

/// Little-endian 16-bit value of the bytes at `i`, `i + 1`.
pub open spec fn le_u16(b: Seq<u8>, i: int) -> int {
    b[i] + 256 * b[i + 1]
}

/// Little-endian 32-bit value of the bytes at `i` .. `i + 4`.
pub open spec fn le_u32(b: Seq<u8>, i: int) -> int {
    b[i] + 256 * b[i + 1] + 65536 * b[i + 2] + 16777216 * b[i + 3]
}

/// The DOS header magic `MZ` at the start.
pub open spec fn has_mz_magic(b: Seq<u8>) -> bool {
    b[0] == 0x4D && b[1] == 0x5A
}

/// The PE signature `PE\0\0` at `p`.
pub open spec fn has_pe_signature(b: Seq<u8>, p: int) -> bool {
    b[p] == 0x50 && b[p + 1] == 0x45 && b[p + 2] == 0 && b[p + 3] == 0
}

/// The 8-byte section name at `s` reads `.rsrc` once trailing NUL bytes are
/// trimmed, that is, it is `.rsrc` followed by three NUL bytes.
pub open spec fn is_rsrc_name(b: Seq<u8>, s: int) -> bool {
    &&& b[s] == 0x2E
    &&& b[s + 1] == 0x72
    &&& b[s + 2] == 0x73
    &&& b[s + 3] == 0x72
    &&& b[s + 4] == 0x63
    &&& b[s + 5] == 0
    &&& b[s + 6] == 0
    &&& b[s + 7] == 0
}

/// The `VS_FIXEDFILEINFO` signature 0xFEEF04BD, little endian, at `p`.
pub open spec fn has_fixed_info_signature(b: Seq<u8>, p: int) -> bool {
    b[p] == 0xBD && b[p + 1] == 0x04 && b[p + 2] == 0xEF && b[p + 3] == 0xFE
}

/// Scan for the version record signature at positions `pos` .. `end`.
pub open spec fn scan_fixed_info(b: Seq<u8>, pos: int, end: int) -> VersionLookup
    decreases end - pos,
{
    if pos >= end {
        VersionLookup::Absent
    } else if pos + 4 > b.len() {
        VersionLookup::Fault
    } else if has_fixed_info_signature(b, pos) {
        if pos + 16 > b.len() {
            VersionLookup::Fault
        } else {
            VersionLookup::Found { ms: le_u32(b, pos + 8) as u32, ls: le_u32(b, pos + 12) as u32 }
        }
    } else {
        scan_fixed_info(b, pos + 1, end)
    }
}

/// The end of the scanned part of a resource section: the data pointer
/// plus the size minus 16, but not past the end of the bytes.
pub open spec fn scan_end(len: int, ptr: int, size: int) -> int {
    if ptr + size - 16 < len { ptr + size - 16 } else { len }
}

/// Walk the section headers `i` .. `count` of the table at `table` (40 bytes
/// each), scanning every `.rsrc` section in turn; the walk stops at the first
/// header that does not fit in the bytes.
pub open spec fn scan_sections(b: Seq<u8>, i: int, count: int, table: int) -> VersionLookup
    decreases count - i,
{
    if i >= count {
        VersionLookup::Absent
    } else if table + 40 * i + 40 > b.len() {
        VersionLookup::Absent
    } else if is_rsrc_name(b, table + 40 * i) {
        let ptr = le_u32(b, table + 40 * i + 20);
        let size = le_u32(b, table + 40 * i + 16);
        if ptr + size < 16 {
            VersionLookup::Fault
        } else {
            match scan_fixed_info(b, ptr, scan_end(b.len() as int, ptr, size)) {
                VersionLookup::Absent => scan_sections(b, i + 1, count, table),
                r => r,
            }
        }
    } else {
        scan_sections(b, i + 1, count, table)
    }
}

/// Where the PE header starts: the 32-bit value at offset 0x3C.
pub open spec fn pe_offset(b: Seq<u8>) -> int {
    le_u32(b, 0x3C)
}

/// The file version that the reader finds in `b`.
pub open spec fn file_version_lookup(b: Seq<u8>) -> VersionLookup {
    if b.len() < 0x40 || !has_mz_magic(b) {
        VersionLookup::Absent
    } else if b.len() < pe_offset(b) + 4 || !has_pe_signature(b, pe_offset(b)) {
        VersionLookup::Absent
    } else if b.len() < pe_offset(b) + 22 {
        VersionLookup::Fault
    } else {
        scan_sections(
            b,
            0,
            le_u16(b, pe_offset(b) + 6),
            pe_offset(b) + 24 + le_u16(b, pe_offset(b) + 20),
        )
    }
}

/// `major.minor.build.revision`, each in decimal, from the two version words.
pub open spec fn version_text(ms: u32, ls: u32) -> Seq<char> {
    decimal((ms / 65536) as nat) + seq!['.'] + decimal((ms % 65536) as nat) + seq!['.']
        + decimal((ls / 65536) as nat) + seq!['.'] + decimal((ls % 65536) as nat)
}

fn read_u16(b: &[u8], i: usize) -> (r: u64)
    requires
        i + 2 <= b@.len(),
    ensures
        r == le_u16(b@, i as int),
{
    b[i] as u64 + 256 * (b[i + 1] as u64)
}

fn read_u32(b: &[u8], i: usize) -> (r: u32)
    requires
        i + 4 <= b@.len(),
    ensures
        r == le_u32(b@, i as int),
{
    b[i] as u32 + 256 * (b[i + 1] as u32) + 65536 * (b[i + 2] as u32) + 16777216 * (b[i + 3] as u32)
}

fn scan_fixed_info_exec(b: &[u8], ptr: u64, end: u64) -> (r: VersionLookup)
    requires
        end <= b@.len(),
    ensures
        r == scan_fixed_info(b@, ptr as int, end as int),
{
    let len = b.len() as u64;
    let mut pos = ptr;
    while pos < end
        invariant
            ptr <= pos,
            end <= b@.len(),
            len == b@.len(),
            scan_fixed_info(b@, ptr as int, end as int) == scan_fixed_info(b@, pos as int, end as int),
        decreases end - pos,
    {
        if len - pos < 4 {
            return VersionLookup::Fault;
        }
        let p = pos as usize;
        if b[p] == 0xBD && b[p + 1] == 0x04 && b[p + 2] == 0xEF && b[p + 3] == 0xFE {
            if len - pos < 16 {
                return VersionLookup::Fault;
            }
            let ms = read_u32(b, p + 8);
            let ls = read_u32(b, p + 12);
            return VersionLookup::Found { ms, ls };
        }
        pos = pos + 1;
    }
    VersionLookup::Absent
}

fn is_rsrc_name_exec(b: &[u8], s: usize) -> (r: bool)
    requires
        s + 8 <= b@.len(),
    ensures
        r == is_rsrc_name(b@, s as int),
{
    b[s] == 0x2E && b[s + 1] == 0x72 && b[s + 2] == 0x73 && b[s + 3] == 0x72 && b[s + 4] == 0x63
        && b[s + 5] == 0 && b[s + 6] == 0 && b[s + 7] == 0
}

fn scan_sections_exec(b: &[u8], count: u64, table: u64) -> (r: VersionLookup)
    requires
        count <= 65535,
        table <= 0x2_0000_0000,
    ensures
        r == scan_sections(b@, 0, count as int, table as int),
{
    let blen = b.len();
    let len = blen as u64;
    let mut i: u64 = 0;
    while i < count
        invariant
            count <= 65535,
            table <= 0x2_0000_0000,
            i <= count,
            len == b@.len(),
            blen == b@.len(),
            scan_sections(b@, 0, count as int, table as int) == scan_sections(
                b@,
                i as int,
                count as int,
                table as int,
            ),
        decreases count - i,
    {
        let start = table + 40 * i;
        if start + 40 > len {
            return VersionLookup::Absent;
        }
        let s = start as usize;
        if is_rsrc_name_exec(b, s) {
            let ptr = read_u32(b, s + 20) as u64;
            let size = read_u32(b, s + 16) as u64;
            if ptr + size < 16 {
                return VersionLookup::Fault;
            }
            let end = if ptr + size - 16 < len { ptr + size - 16 } else { len };
            let r = scan_fixed_info_exec(b, ptr, end);
            match r {
                VersionLookup::Absent => {},
                _ => {
                    return r;
                },
            }
        }
        i = i + 1;
    }
    VersionLookup::Absent
}

/// Looks for the file version in the bytes of an executable: the `MZ`
/// header, the PE signature at the offset stored at 0x3C, the section
/// table, and in each `.rsrc` section the `VS_FIXEDFILEINFO` signature.
pub fn locate_file_version(bytes: &[u8]) -> (r: VersionLookup)
    ensures
        r == file_version_lookup(bytes@),
{
    let len = bytes.len() as u64;
    if len < 0x40 || !(bytes[0] == 0x4D && bytes[1] == 0x5A) {
        return VersionLookup::Absent;
    }
    let pe = read_u32(bytes, 0x3C) as u64;
    if len < pe + 4 {
        return VersionLookup::Absent;
    }
    let p = pe as usize;
    if !(bytes[p] == 0x50 && bytes[p + 1] == 0x45 && bytes[p + 2] == 0 && bytes[p + 3] == 0) {
        return VersionLookup::Absent;
    }
    if len < pe + 22 {
        return VersionLookup::Fault;
    }
    let count = read_u16(bytes, p + 6);
    let optional_header_size = read_u16(bytes, p + 20);
    scan_sections_exec(bytes, count, pe + 24 + optional_header_size)
}

/// The characters of `version_text(ms, ls)`.
fn version_chars(ms: u32, ls: u32) -> (v: Vec<char>)
    ensures
        v@ == version_text(ms, ls),
{
    let mut v: Vec<char> = Vec::new();
    push_decimal(&mut v, ms / 65536);
    v.push('.');
    push_decimal(&mut v, ms % 65536);
    v.push('.');
    push_decimal(&mut v, ls / 65536);
    v.push('.');
    push_decimal(&mut v, ls % 65536);
    v
}

/// The file version of an executable as `major.minor.build.revision`, or
/// `None` where the bytes hold none that the reader reaches.
pub fn parse_file_version(bytes: &[u8]) -> (r: Option<String>)
    requires
        file_version_lookup(bytes@) != VersionLookup::Fault,
    ensures
        match file_version_lookup(bytes@) {
            VersionLookup::Found { ms, ls } => r is Some && r->0@ == version_text(ms, ls),
            _ => r is None,
        },
{
    match locate_file_version(bytes) {
        VersionLookup::Found { ms, ls } => {
            let v = version_chars(ms, ls);
            Some(string_from_chars(v.as_slice()))
        },
        _ => None,
    }
}

/// The one game version that the setup accepts.
pub open spec fn supported_version_text() -> Seq<char> {
    "1.1.641.0"@
}

/// A version text determines the two version words it was rendered from.
pub proof fn lemma_version_text_injective(ms1: u32, ls1: u32, ms2: u32, ls2: u32)
    requires
        version_text(ms1, ls1) == version_text(ms2, ls2),
    ensures
        ms1 == ms2,
        ls1 == ls2,
{
    let dot = seq!['.'];
    let a1 = decimal((ms1 / 65536) as nat);
    let b1 = decimal((ms1 % 65536) as nat);
    let c1 = decimal((ls1 / 65536) as nat);
    let e1 = decimal((ls1 % 65536) as nat);
    let a2 = decimal((ms2 / 65536) as nat);
    let b2 = decimal((ms2 % 65536) as nat);
    let c2 = decimal((ls2 / 65536) as nat);
    let e2 = decimal((ls2 % 65536) as nat);
    lemma_decimal_is_digits((ms1 / 65536) as nat);
    lemma_decimal_is_digits((ms1 % 65536) as nat);
    lemma_decimal_is_digits((ls1 / 65536) as nat);
    lemma_decimal_is_digits((ms2 / 65536) as nat);
    lemma_decimal_is_digits((ms2 % 65536) as nat);
    lemma_decimal_is_digits((ls2 / 65536) as nat);
    assert(version_text(ms1, ls1) =~= a1 + dot + (b1 + dot + (c1 + dot + e1)));
    assert(version_text(ms2, ls2) =~= a2 + dot + (b2 + dot + (c2 + dot + e2)));
    lemma_split_at_first_dot(a1, b1 + dot + (c1 + dot + e1), a2, b2 + dot + (c2 + dot + e2));
    lemma_split_at_first_dot(b1, c1 + dot + e1, b2, c2 + dot + e2);
    lemma_split_at_first_dot(c1, e1, c2, e2);
    lemma_decimal_injective((ms1 / 65536) as nat, (ms2 / 65536) as nat);
    lemma_decimal_injective((ms1 % 65536) as nat, (ms2 % 65536) as nat);
    lemma_decimal_injective((ls1 / 65536) as nat, (ls2 / 65536) as nat);
    lemma_decimal_injective((ls1 % 65536) as nat, (ls2 % 65536) as nat);
}

/// The supported version text `1.1.641.0` is rendered from exactly the
/// version words of major 1, minor 1, build 641, revision 0.
pub proof fn lemma_supported_version_words(ms: u32, ls: u32)
    ensures
        version_text(ms, ls) == supported_version_text() <==> (ms == 65537 && ls == 641 * 65536),
{
    reveal_with_fuel(decimal, 3);
    reveal_strlit("1.1.641.0");
    assert(65537u32 / 65536 == 1 && 65537u32 % 65536 == 1);
    assert(42008576u32 / 65536 == 641 && 42008576u32 % 65536 == 0);
    assert(decimal(0) =~= seq!['0']);
    assert(decimal(1) =~= seq!['1']);
    assert(decimal(6) =~= seq!['6']);
    assert(decimal(64) =~= seq!['6', '4']);
    assert(decimal(641) =~= seq!['6', '4', '1']);
    assert(version_text(65537, 42008576) =~= seq!['1', '.', '1', '.', '6', '4', '1', '.', '0']);
    assert(supported_version_text() =~= seq!['1', '.', '1', '.', '6', '4', '1', '.', '0']);
    if version_text(ms, ls) == supported_version_text() {
        lemma_version_text_injective(ms, ls, 65537, 42008576);
    }
}

/// The executable's version when it is the supported one, `1.1.641.0`;
/// `None` when the bytes hold another version or none.
pub fn supported_game_version(bytes: &[u8]) -> (r: Option<String>)
    requires
        file_version_lookup(bytes@) != VersionLookup::Fault,
    ensures
        r is Some <==> (match file_version_lookup(bytes@) {
            VersionLookup::Found { ms, ls } => version_text(ms, ls) == supported_version_text(),
            _ => false,
        }),
        r matches Some(v) ==> v@ == supported_version_text(),
{
    match locate_file_version(bytes) {
        VersionLookup::Found { ms, ls } => {
            proof {
                lemma_supported_version_words(ms, ls);
            }
            if ms == 65537 && ls == 641 * 65536 {
                let v = version_chars(ms, ls);
                Some(string_from_chars(v.as_slice()))
            } else {
                None
            }
        },
        _ => None,
    }
}

/// A version record at `p`: the signature bytes BD 04 EF FE, then the two
/// version words, little endian, at `p + 8` and `p + 12`, all within the
/// bytes.
pub open spec fn version_record_at(b: Seq<u8>, p: int, ms: u32, ls: u32) -> bool {
    &&& 0 <= p
    &&& p + 16 <= b.len()
    &&& b[p] == 0xBD && b[p + 1] == 0x04 && b[p + 2] == 0xEF && b[p + 3] == 0xFE
    &&& ms == b[p + 8] + 256 * b[p + 9] + 65536 * b[p + 10] + 16777216 * b[p + 11]
    &&& ls == b[p + 12] + 256 * b[p + 13] + 65536 * b[p + 14] + 16777216 * b[p + 15]
}

/// Section header `k` of the table at `table` (40 bytes each) fits in the
/// bytes, is named `.rsrc` padded with NUL bytes, and `p` lies in the
/// scanned part of its data: from its data pointer (offset 20) up to, not
/// including, pointer plus size (offset 16) minus 16.
pub open spec fn in_rsrc_section(b: Seq<u8>, table: int, k: int, p: int) -> bool {
    let s = table + 40 * k;
    let ptr = b[s + 20] + 256 * b[s + 21] + 65536 * b[s + 22] + 16777216 * b[s + 23];
    let size = b[s + 16] + 256 * b[s + 17] + 65536 * b[s + 18] + 16777216 * b[s + 19];
    &&& s + 40 <= b.len()
    &&& b[s] == 0x2E && b[s + 1] == 0x72 && b[s + 2] == 0x73 && b[s + 3] == 0x72
    &&& b[s + 4] == 0x63 && b[s + 5] == 0 && b[s + 6] == 0 && b[s + 7] == 0
    &&& ptr <= p && p + 16 < ptr + size
}

proof fn lemma_scan_fixed_info_found(b: Seq<u8>, pos: int, end: int)
    requires
        0 <= pos,
        scan_fixed_info(b, pos, end) is Found,
    ensures
        exists|p: int|
            pos <= p < end && #[trigger] version_record_at(
                b,
                p,
                scan_fixed_info(b, pos, end)->ms,
                scan_fixed_info(b, pos, end)->ls,
            ),
    decreases end - pos,
{
    if pos < end && pos + 4 <= b.len() && has_fixed_info_signature(b, pos) {
        assert(version_record_at(b, pos, scan_fixed_info(b, pos, end)->ms, scan_fixed_info(b, pos, end)->ls));
    } else {
        lemma_scan_fixed_info_found(b, pos + 1, end);
    }
}

proof fn lemma_scan_sections_found(b: Seq<u8>, i: int, count: int, table: int)
    requires
        0 <= i,
        0 <= table,
        scan_sections(b, i, count, table) is Found,
    ensures
        exists|k: int, p: int|
            i <= k < count && #[trigger] in_rsrc_section(b, table, k, p) && version_record_at(
                b,
                p,
                scan_sections(b, i, count, table)->ms,
                scan_sections(b, i, count, table)->ls,
            ),
    decreases count - i,
{
    let s = table + 40 * i;
    if is_rsrc_name(b, s) && scan_fixed_info(b, le_u32(b, s + 20), scan_end(b.len() as int, le_u32(b, s + 20), le_u32(b, s + 16))) is Found {
        let ptr = le_u32(b, s + 20);
        let end = scan_end(b.len() as int, ptr, le_u32(b, s + 16));
        lemma_scan_fixed_info_found(b, ptr, end);
        let p = choose|p: int| ptr <= p < end && #[trigger] version_record_at(
            b, p, scan_fixed_info(b, ptr, end)->ms, scan_fixed_info(b, ptr, end)->ls);
        assert(in_rsrc_section(b, table, i, p));
    } else {
        lemma_scan_sections_found(b, i + 1, count, table);
    }
}

/// A version is reported only from a file that starts with `MZ`, carries
/// `PE\0\0` at the offset stored at 0x3C, and has, inside a `.rsrc`
/// section listed in its section table, the `VS_FIXEDFILEINFO` signature
/// followed by the reported version words.
pub proof fn lemma_found_version_is_recorded(b: Seq<u8>)
    requires
        file_version_lookup(b) is Found,
    ensures
        ({
            let pe = b[60] + 256 * b[61] + 65536 * b[62] + 16777216 * b[63];
            let count = b[pe + 6] + 256 * b[pe + 7];
            let table = pe + 24 + b[pe + 20] + 256 * b[pe + 21];
            &&& b.len() >= 64
            &&& b[0] == 0x4D && b[1] == 0x5A
            &&& b[pe] == 0x50 && b[pe + 1] == 0x45 && b[pe + 2] == 0 && b[pe + 3] == 0
            &&& exists|k: int, p: int|
                0 <= k < count && #[trigger] in_rsrc_section(b, table, k, p) && version_record_at(
                    b,
                    p,
                    file_version_lookup(b)->ms,
                    file_version_lookup(b)->ls,
                )
        }),
{
    let pe = pe_offset(b);
    let count = le_u16(b, pe + 6);
    let table = pe + 24 + le_u16(b, pe + 20);
    assert(pe == b[60] + 256 * b[61] + 65536 * b[62] + 16777216 * b[63]);
    lemma_scan_sections_found(b, 0, count, table);
    let ms = file_version_lookup(b)->ms;
    let ls = file_version_lookup(b)->ls;
    let (k, p) = choose|k: int, p: int|
        0 <= k < count && #[trigger] in_rsrc_section(b, table, k, p) && version_record_at(b, p, ms, ls);
    assert(0 <= k < b[pe + 6] + 256 * b[pe + 7]);
    assert(in_rsrc_section(b, pe + 24 + b[pe + 20] + 256 * b[pe + 21], k, p));
}

proof fn lemma_scan_reaches_record(b: Seq<u8>, pos: int, end: int, p: int)
    requires
        pos <= p < end,
        p + 16 <= b.len(),
        has_fixed_info_signature(b, p),
    ensures
        scan_fixed_info(b, pos, end) != VersionLookup::Absent,
    decreases end - pos,
{
    if pos < p && !has_fixed_info_signature(b, pos) {
        lemma_scan_reaches_record(b, pos + 1, end, p);
    }
}

proof fn lemma_sections_reach_record(b: Seq<u8>, i: int, count: int, table: int, k: int, p: int)
    requires
        0 <= i <= k < count,
        table + 40 * k + 40 <= b.len(),
        is_rsrc_name(b, table + 40 * k),
        le_u32(b, table + 40 * k + 20) <= p,
        p + 16 < le_u32(b, table + 40 * k + 20) + le_u32(b, table + 40 * k + 16),
        p + 16 <= b.len(),
        has_fixed_info_signature(b, p),
    ensures
        scan_sections(b, i, count, table) != VersionLookup::Absent,
    decreases k - i,
{
    let s = table + 40 * i;
    let ptr = le_u32(b, s + 20);
    let size = le_u32(b, s + 16);
    if i == k {
        lemma_scan_reaches_record(b, ptr, scan_end(b.len() as int, ptr, size), p);
    } else if is_rsrc_name(b, s) && ptr + size >= 16 && scan_fixed_info(
        b,
        ptr,
        scan_end(b.len() as int, ptr, size),
    ) != VersionLookup::Absent {
    } else {
        lemma_sections_reach_record(b, i + 1, count, table, k, p);
    }
}

/// A version record that the file's own headers point to is not missed:
/// when the file starts with `MZ`, carries `PE\0\0` at the 32-bit
/// little-endian offset stored at 0x3C, and section `k` of the section
/// table (`k` below the section count at offset 6 of the PE header; the
/// table after the 24-byte header and the optional header, whose size is at
/// offset 20) is a `.rsrc` section whose scanned data (from its data
/// pointer to pointer plus size minus 16) holds the version signature at
/// `p`, then the lookup finds a version (or faults earlier), never reports
/// it absent.
pub proof fn lemma_recorded_version_is_reached(b: Seq<u8>, k: int, p: int)
    requires
        b.len() >= 64,
        b[0] == 0x4D,
        b[1] == 0x5A,
        ({
            let pe = b[60] + 256 * b[61] + 65536 * b[62] + 16777216 * b[63];
            let count = b[pe + 6] + 256 * b[pe + 7];
            let table = pe + 24 + b[pe + 20] + 256 * b[pe + 21];
            let s = table + 40 * k;
            let ptr = b[s + 20] + 256 * b[s + 21] + 65536 * b[s + 22] + 16777216 * b[s + 23];
            let size = b[s + 16] + 256 * b[s + 17] + 65536 * b[s + 18] + 16777216 * b[s + 19];
            &&& b[pe] == 0x50 && b[pe + 1] == 0x45 && b[pe + 2] == 0 && b[pe + 3] == 0
            &&& 0 <= k < count
            &&& s + 40 <= b.len()
            &&& b[s] == 0x2E && b[s + 1] == 0x72 && b[s + 2] == 0x73 && b[s + 3] == 0x72
            &&& b[s + 4] == 0x63 && b[s + 5] == 0 && b[s + 6] == 0 && b[s + 7] == 0
            &&& ptr <= p && p + 16 < ptr + size && p + 16 <= b.len()
            &&& b[p] == 0xBD && b[p + 1] == 0x04 && b[p + 2] == 0xEF && b[p + 3] == 0xFE
        }),
    ensures
        file_version_lookup(b) != VersionLookup::Absent,
{
    let pe = pe_offset(b);
    let count = le_u16(b, pe + 6);
    let table = pe + 24 + le_u16(b, pe + 20);
    assert(pe == b[60] + 256 * b[61] + 65536 * b[62] + 16777216 * b[63]);
    assert(table + 40 * k + 40 <= b.len());
    assert(pe + 22 <= b.len());
    lemma_sections_reach_record(b, 0, count, table, k, p);
}

} // verus!
