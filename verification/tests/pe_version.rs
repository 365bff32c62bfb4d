use sc4_setup::pe_version::{locate_file_version, parse_file_version, supported_game_version, VersionLookup};

fn put_u16(b: &mut Vec<u8>, at: usize, v: u16) {
    b[at..at + 2].copy_from_slice(&v.to_le_bytes());
}

fn put_u32(b: &mut Vec<u8>, at: usize, v: u32) {
    b[at..at + 4].copy_from_slice(&v.to_le_bytes());
}

/// A small PE image: header at 0x40, the given section names (each 0x40
/// bytes of data from 0x200 on), and a version record in the section
/// `record_in` (if any) at offset 0x10 of its data.
fn image(names: &[&[u8; 8]], record_in: Option<usize>, ms: u32, ls: u32) -> Vec<u8> {
    let data_start = 0x200usize;
    let mut b = vec![0u8; data_start + 0x40 * names.len()];
    b[0] = b'M';
    b[1] = b'Z';
    put_u32(&mut b, 0x3C, 0x40);
    b[0x40..0x44].copy_from_slice(b"PE\0\0");
    put_u16(&mut b, 0x46, names.len() as u16);
    put_u16(&mut b, 0x54, 0x10);
    let table = 0x40 + 24 + 0x10;
    for (k, name) in names.iter().enumerate() {
        let s = table + 40 * k;
        b[s..s + 8].copy_from_slice(&name[..]);
        put_u32(&mut b, s + 16, 0x40);
        put_u32(&mut b, s + 20, (data_start + 0x40 * k) as u32);
    }
    if let Some(k) = record_in {
        let p = data_start + 0x40 * k + 0x10;
        put_u32(&mut b, p, 0xFEEF04BD);
        put_u32(&mut b, p + 8, ms);
        put_u32(&mut b, p + 12, ls);
    }
    b
}

const RSRC: &[u8; 8] = b".rsrc\0\0\0";
const TEXT: &[u8; 8] = b".text\0\0\0";

#[test]
fn reads_version_from_rsrc_section() {
    let b = image(&[RSRC], Some(0), (1 << 16) | 1, 641 << 16);
    assert_eq!(locate_file_version(&b), VersionLookup::Found { ms: 0x0001_0001, ls: 641 << 16 });
    assert_eq!(parse_file_version(&b), Some("1.1.641.0".to_string()));
}

#[test]
fn renders_each_field_in_decimal() {
    let b = image(&[RSRC], Some(0), (65535 << 16) | 10, (1234 << 16) | 9);
    assert_eq!(parse_file_version(&b), Some("65535.10.1234.9".to_string()));
}

#[test]
fn finds_record_in_a_later_rsrc_section() {
    let b = image(&[TEXT, RSRC, RSRC], Some(2), (2 << 16) | 3, (4 << 16) | 5);
    assert_eq!(parse_file_version(&b), Some("2.3.4.5".to_string()));
}

#[test]
fn record_outside_rsrc_is_not_read() {
    let b = image(&[TEXT], Some(0), 1, 1);
    assert_eq!(locate_file_version(&b), VersionLookup::Absent);
    assert_eq!(parse_file_version(&b), None);
}

#[test]
fn rsrc_name_must_be_padded_with_nuls() {
    let b = image(&[b".rsrcx\0\0"], Some(0), 1, 1);
    assert_eq!(parse_file_version(&b), None);
}

#[test]
fn needs_mz_and_pe_headers() {
    let mut b = image(&[RSRC], Some(0), 1, 1);
    b[0] = b'X';
    assert_eq!(parse_file_version(&b), None);
    let mut b = image(&[RSRC], Some(0), 1, 1);
    b[0x41] = b'X';
    assert_eq!(parse_file_version(&b), None);
    assert_eq!(parse_file_version(&[b'M', b'Z']), None);
    assert_eq!(parse_file_version(&[]), None);
}

#[test]
fn pe_offset_past_the_end_is_absent() {
    let mut b = vec![0u8; 0x40];
    b[0] = b'M';
    b[1] = b'Z';
    put_u32(&mut b, 0x3C, 0x1000);
    assert_eq!(locate_file_version(&b), VersionLookup::Absent);
}

#[test]
fn truncated_pe_header_faults() {
    let mut b = vec![0u8; 0x50];
    b[0] = b'M';
    b[1] = b'Z';
    put_u32(&mut b, 0x3C, 0x40);
    b[0x40..0x44].copy_from_slice(b"PE\0\0");
    assert_eq!(locate_file_version(&b), VersionLookup::Fault);
}

#[test]
fn section_table_past_the_end_is_absent() {
    let mut b = image(&[RSRC], Some(0), 1, 1);
    put_u16(&mut b, 0x54, 0xF000);
    assert_eq!(locate_file_version(&b), VersionLookup::Absent);
}

#[test]
fn scan_running_past_the_end_faults() {
    // The section claims more data than the file holds and has no record.
    let mut b = image(&[RSRC], None, 0, 0);
    let s = 0x40 + 24 + 0x10;
    put_u32(&mut b, s + 16, 0x1000);
    assert_eq!(locate_file_version(&b), VersionLookup::Fault);
}

#[test]
fn underflowing_section_size_faults() {
    let mut b = image(&[RSRC], None, 0, 0);
    let s = 0x40 + 24 + 0x10;
    put_u32(&mut b, s + 16, 0);
    put_u32(&mut b, s + 20, 4);
    assert_eq!(locate_file_version(&b), VersionLookup::Fault);
}

#[test]
fn supported_version_is_exactly_1_1_641_0() {
    let good = image(&[RSRC], Some(0), (1 << 16) | 1, 641 << 16);
    assert_eq!(supported_game_version(&good), Some("1.1.641.0".to_string()));
    let older = image(&[RSRC], Some(0), (1 << 16) | 1, 640 << 16);
    assert_eq!(supported_game_version(&older), None);
    let other = image(&[RSRC], Some(0), (1 << 16) | 1, (641 << 16) | 1);
    assert_eq!(supported_game_version(&other), None);
    assert_eq!(supported_game_version(&[]), None);
}
