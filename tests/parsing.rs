use ntfs_collector::attributes::{parse_file_name, parse_standard_information, StandardInformation, UnixTime};
use ntfs_collector::boot::parse_boot_sector;
use ntfs_collector::error::FactError;
use ntfs_collector::fixup::apply_usa;
use ntfs_collector::index::{parse_index_entries, parse_index_record, parse_index_root};
use ntfs_collector::names::names_match;
use ntfs_collector::record::{
    parse_attribute_chain, parse_attributes, parse_file_record_header, parse_non_resident_header,
};
use ntfs_collector::runlist::{parse_runlist, DataRun};

fn put16(b: &mut [u8], at: usize, v: u16) {
    b[at..at + 2].copy_from_slice(&v.to_le_bytes());
}

fn put32(b: &mut [u8], at: usize, v: u32) {
    b[at..at + 4].copy_from_slice(&v.to_le_bytes());
}

fn put64(b: &mut [u8], at: usize, v: u64) {
    b[at..at + 8].copy_from_slice(&v.to_le_bytes());
}

fn boot(bps: u16, spc: u8, mft_lcn: u64) -> Vec<u8> {
    let mut b = vec![0u8; 512];
    b[3..11].copy_from_slice(b"NTFS    ");
    put16(&mut b, 0x0B, bps);
    b[0x0D] = spc;
    b[0x15] = 0xF8;
    put64(&mut b, 0x28, 1_000_000);
    put64(&mut b, 0x30, mft_lcn);
    put64(&mut b, 0x38, 2);
    b
}

fn is_parse_error(e: &FactError) -> bool {
    matches!(e, FactError::ParseError { .. })
}

fn name_entry(reference: u64, name: &str, flags: u8) -> Vec<u8> {
    let units: Vec<u16> = name.encode_utf16().collect();
    let stream = 66 + 2 * units.len();
    let len = (16 + stream + 7) / 8 * 8;
    let mut e = vec![0u8; len];
    put64(&mut e, 0, reference);
    put16(&mut e, 8, len as u16);
    put16(&mut e, 10, stream as u16);
    e[12] = flags;
    e[16 + 64] = units.len() as u8;
    e[16 + 65] = 1;
    for (i, u) in units.iter().enumerate() {
        put16(&mut e, 16 + 66 + 2 * i, *u);
    }
    e
}

fn end_entry() -> Vec<u8> {
    let mut e = vec![0u8; 16];
    put16(&mut e, 8, 16);
    e[12] = 0x02;
    e
}

#[test]
fn boot_sector_geometry() {
    let bs = parse_boot_sector(&boot(512, 8, 0xC0000)).unwrap();
    assert_eq!(bs.bytes_per_sector, 512);
    assert_eq!(bs.sectors_per_cluster, 8);
    assert_eq!(bs.media_descriptor, 0xF8);
    assert_eq!(bs.total_sectors, 1_000_000);
    assert_eq!(bs.mft_mirr_lcn, 2);
    assert_eq!(bs.cluster_size(), 4096);
    assert_eq!(bs.mft_offset(), 3221225472);
}

#[test]
fn boot_sector_rejects_bad_geometry() {
    assert!(is_parse_error(&parse_boot_sector(&boot(512, 8, 0xC0000)[..100]).unwrap_err()));
    assert!(is_parse_error(&parse_boot_sector(&boot(0, 8, 0xC0000)).unwrap_err()));
    assert!(is_parse_error(&parse_boot_sector(&boot(512, 0, 0xC0000)).unwrap_err()));
    assert!(is_parse_error(&parse_boot_sector(&boot(512, 8, 0)).unwrap_err()));
    assert!(is_parse_error(&parse_boot_sector(&boot(500, 8, 1)).unwrap_err()));
    assert!(is_parse_error(&parse_boot_sector(&boot(256, 1, 1)).unwrap_err()));
    assert!(is_parse_error(&parse_boot_sector(&boot(512, 8, u64::MAX / 1024)).unwrap_err()));
    assert_eq!(parse_boot_sector(&boot(4096, 128, 4)).unwrap().cluster_size(), 1 << 19);
}

#[test]
fn runlist_zero_header_is_empty() {
    assert!(parse_runlist(&[0x00]).unwrap().is_empty());
    assert!(parse_runlist(&[0x00, 0x21, 0x18, 0x34, 0x56]).unwrap().is_empty());
    assert!(parse_runlist(&[]).unwrap().is_empty());
}

#[test]
fn runlist_single_run() {
    let runs = parse_runlist(&[0x21, 0x18, 0x34, 0x56]).unwrap();
    assert_eq!(runs, vec![DataRun { start_lcn: 0x5634, length: 0x18 }]);
}

#[test]
fn runlist_relative_and_negative_offsets() {
    // 0x100 clusters at 0x1000, then 0x10 clusters 0x200 clusters earlier.
    let data = [0x22, 0x00, 0x01, 0x00, 0x10, 0x21, 0x10, 0x00, 0xFE, 0x00];
    let runs = parse_runlist(&data).unwrap();
    assert_eq!(
        runs,
        vec![DataRun { start_lcn: 0x1000, length: 0x100 }, DataRun { start_lcn: 0x0E00, length: 0x10 }]
    );
}

#[test]
fn runlist_errors() {
    assert!(is_parse_error(&parse_runlist(&[0x21, 0x18, 0x34]).unwrap_err()));
    assert!(matches!(parse_runlist(&[0x01, 0x18, 0x00]).unwrap_err(), FactError::UnsupportedFormat(_)));
    assert!(is_parse_error(&parse_runlist(&[0x11, 0x00, 0x05, 0x00]).unwrap_err()));
    assert!(is_parse_error(&parse_runlist(&[0x11, 0x05, 0xFF, 0x00]).unwrap_err()));
    assert!(is_parse_error(&parse_runlist(&[0x19, 1, 2, 3, 4, 5, 6, 7, 8, 9, 1, 0]).unwrap_err()));
}

/// Encodes runs with the fewest length and offset bytes.
fn encode_minimal(runs: &[DataRun]) -> Vec<u8> {
    let mut out = Vec::new();
    let mut prev: i128 = 0;
    for r in runs {
        let mut l = 1;
        while l < 8 && (r.length as u128) >= 1u128 << (8 * l) {
            l += 1;
        }
        let d = r.start_lcn as i128 - prev;
        let mut o = 1;
        while o < 8 && !(-(1i128 << (8 * o - 1)) <= d && d < (1i128 << (8 * o - 1))) {
            o += 1;
        }
        out.push((16 * o + l) as u8);
        out.extend(&r.length.to_le_bytes()[..l]);
        out.extend(&(d as i64).to_le_bytes()[..o]);
        prev = r.start_lcn as i128;
    }
    out.push(0);
    out
}

#[test]
fn runlist_round_trip_through_minimal_encoding() {
    // Padded fields: 2-byte length 0x0018, 4-byte offset 0x00005634, then a
    // negative 3-byte offset.
    let padded = [0x42, 0x18, 0x00, 0x34, 0x56, 0x00, 0x00, 0x31, 0x05, 0x00, 0xFF, 0xFF, 0x00];
    let runs = parse_runlist(&padded).unwrap();
    assert_eq!(
        runs,
        vec![DataRun { start_lcn: 0x5634, length: 0x18 }, DataRun { start_lcn: 0x5534, length: 5 }]
    );
    let minimal = encode_minimal(&runs);
    assert_eq!(minimal, vec![0x21, 0x18, 0x34, 0x56, 0x21, 0x05, 0x00, 0xFF, 0x00]);
    assert_eq!(parse_runlist(&minimal).unwrap(), runs);
}

fn record_with(attrs: &[Vec<u8>]) -> Vec<u8> {
    let mut r = vec![0u8; 1024];
    r[0..4].copy_from_slice(b"FILE");
    put16(&mut r, 4, 0x30);
    put16(&mut r, 6, 3);
    put16(&mut r, 20, 0x38);
    put16(&mut r, 22, 1);
    let mut at = 0x38;
    for a in attrs {
        r[at..at + a.len()].copy_from_slice(a);
        at += a.len();
    }
    put32(&mut r, at, 0xFFFF_FFFF);
    put32(&mut r, 24, (at + 4) as u32);
    put32(&mut r, 28, 1024);
    r
}

fn resident(type_code: u32, content: &[u8]) -> Vec<u8> {
    let len = (24 + content.len() + 7) / 8 * 8;
    let mut a = vec![0u8; len];
    put32(&mut a, 0, type_code);
    put32(&mut a, 4, len as u32);
    put16(&mut a, 10, 24);
    put32(&mut a, 16, content.len() as u32);
    put16(&mut a, 20, 24);
    a[24..24 + content.len()].copy_from_slice(content);
    a
}

#[test]
fn attribute_chain_offsets_and_lengths() {
    let rec = record_with(&[resident(0x10, &[0u8; 48]), resident(0x30, &[1u8; 70])]);
    let h = parse_file_record_header(&rec).unwrap();
    assert_eq!(&h.signature, b"FILE");
    assert_eq!(h.attr_offset, 0x38);
    let chain = parse_attribute_chain(&rec, h.attr_offset as usize).unwrap();
    assert_eq!(chain.len(), 2);
    assert_eq!(chain[0].offset, 0x38);
    assert_eq!(chain[0].header.type_code, 0x10);
    assert_eq!(chain[1].offset, 0x38 + 72);
    assert_eq!(chain[1].header.type_code, 0x30);
    let total: u32 = chain.iter().map(|a| a.header.length).sum();
    assert_eq!(total, h.bytes_in_use - h.attr_offset as u32 - 4);
    let headers = parse_attributes(&rec, &h).unwrap();
    assert_eq!(headers.len(), 2);
    assert_eq!(headers[1].length, 96);
}

#[test]
fn attribute_chain_zero_length_fails() {
    let mut rec = record_with(&[resident(0x10, &[0u8; 48])]);
    put32(&mut rec, 0x38 + 4, 0);
    let h = parse_file_record_header(&rec).unwrap();
    assert!(is_parse_error(&parse_attributes(&rec, &h).unwrap_err()));
}

#[test]
fn record_header_too_short() {
    assert!(is_parse_error(&parse_file_record_header(&[0u8; 20]).unwrap_err()));
}

#[test]
fn non_resident_header_fields() {
    let mut a = vec![0u8; 72];
    put64(&mut a, 16, 0);
    put64(&mut a, 24, 15);
    put16(&mut a, 32, 64);
    put64(&mut a, 40, 65536);
    put64(&mut a, 48, 65000);
    put64(&mut a, 56, 65000);
    let h = parse_non_resident_header(&a).unwrap();
    assert_eq!(h.last_vcn, 15);
    assert_eq!(h.run_array_offset, 64);
    assert_eq!(h.allocated_size, 65536);
    assert_eq!(h.real_size, 65000);
    assert!(is_parse_error(&parse_non_resident_header(&a[..40]).unwrap_err()));
}

fn protected(mut b: Vec<u8>, usa_offset: usize, sectors: usize, usn: u16) -> Vec<u8> {
    put16(&mut b, usa_offset, usn);
    for i in 0..sectors {
        let tail = (i + 1) * 512 - 2;
        let orig = [b[tail], b[tail + 1]];
        b[usa_offset + 2 + 2 * i] = orig[0];
        b[usa_offset + 3 + 2 * i] = orig[1];
        put16(&mut b, tail, usn);
    }
    b
}

#[test]
fn fixup_restores_sector_tails() {
    let mut b = vec![0u8; 1024];
    b[510] = 0xAA;
    b[511] = 0xBB;
    b[1022] = 0xCC;
    b[1023] = 0xDD;
    let mut p = protected(b.clone(), 0x30, 2, 7);
    assert_eq!(&p[510..512], &[7, 0]);
    apply_usa(&mut p, 0x30, 3).unwrap();
    assert_eq!(&p[510..512], &[0xAA, 0xBB]);
    assert_eq!(&p[1022..1024], &[0xCC, 0xDD]);
}

#[test]
fn fixup_count_one_restores_nothing() {
    let mut b = vec![9u8; 1024];
    put16(&mut b, 0x30, 7);
    let before = b.clone();
    apply_usa(&mut b, 0x30, 1).unwrap();
    assert_eq!(b, before);
}

#[test]
fn fixup_mismatch_is_reported() {
    let mut p = protected(vec![0u8; 1024], 0x30, 2, 7);
    p[1022] = 0x55;
    match apply_usa(&mut p, 0x30, 3) {
        Err(FactError::ParseError { details, .. }) => assert_eq!(details, "fixup mismatch"),
        other => panic!("unexpected {:?}", other),
    }
    // The matching sector is still restored; the other is left alone.
    assert_eq!(&p[510..512], &[0, 0]);
    assert_eq!(p[1022], 0x55);
}

#[test]
fn fixup_zero_count_fails() {
    let mut b = vec![3u8; 1024];
    let before = b.clone();
    assert!(is_parse_error(&apply_usa(&mut b, 0x30, 0).unwrap_err()));
    assert_eq!(b, before);
}

#[test]
fn fixup_out_of_bounds_fails() {
    let mut b = vec![0u8; 1024];
    assert!(is_parse_error(&apply_usa(&mut b, 1020, 3).unwrap_err()));
    assert!(is_parse_error(&apply_usa(&mut b, 0x30, 4).unwrap_err()));
}

#[test]
fn index_entries_masked_and_named() {
    let mut data = name_entry(0x0003_0000_0000_001E, "Windows", 0);
    data.extend(name_entry(40, "", 0));
    data.extend(name_entry(41, "pagefile.sys", 0));
    data.extend(end_entry());
    data.extend(name_entry(99, "after-last", 0));
    let es = parse_index_entries(&data).unwrap();
    assert_eq!(es.len(), 2);
    assert_eq!(es[0].file_reference, 30);
    assert_eq!(es[0].filename, "Windows");
    assert_eq!(es[1].file_reference, 41);
    assert_eq!(es[1].filename, "pagefile.sys");
}

#[test]
fn index_entries_stop_on_zero_length() {
    let mut data = name_entry(7, "a", 0);
    data.extend(vec![0u8; 16]);
    data.extend(name_entry(8, "b", 0));
    let es = parse_index_entries(&data).unwrap();
    assert_eq!(es.len(), 1);
    assert_eq!(es[0].filename, "a");
}

#[test]
fn index_root_fields() {
    let mut b = vec![0u8; 40];
    put32(&mut b, 0, 0x30);
    put32(&mut b, 4, 1);
    put32(&mut b, 8, 4096);
    b[12] = 1;
    put32(&mut b, 16, 16);
    put32(&mut b, 20, 100);
    put32(&mut b, 24, 100);
    b[28] = 0;
    let r = parse_index_root(&b).unwrap();
    assert_eq!(r.attribute_type, 0x30);
    assert_eq!(r.index_allocation_size, 4096);
    assert_eq!(r.header.first_entry_offset, 16);
    assert_eq!(r.header.total_size_of_entries, 100);
    assert!(is_parse_error(&parse_index_root(&b[..31]).unwrap_err()));
}

pub fn indx_block(names: &[(u64, &str)], signature: &[u8; 4]) -> Vec<u8> {
    let mut b = vec![0u8; 4096];
    b[0..4].copy_from_slice(signature);
    put16(&mut b, 4, 0x28);
    put16(&mut b, 6, 9);
    let mut entries = Vec::new();
    for (r, n) in names {
        entries.extend(name_entry(*r, n, 0));
    }
    entries.extend(end_entry());
    put32(&mut b, 24, 0x28);
    put32(&mut b, 28, 0x28 + entries.len() as u32);
    put32(&mut b, 32, 4096 - 24);
    b[0x40..0x40 + entries.len()].copy_from_slice(&entries);
    protected(b, 0x28, 8, 0x0102)
}

#[test]
fn index_record_entries() {
    let block = indx_block(&[(32, "config"), (60, "drivers")], b"INDX");
    let es = parse_index_record(&block).unwrap();
    assert_eq!(es.len(), 2);
    assert_eq!(es[0].filename, "config");
    assert_eq!(es[0].file_reference, 32);
    assert_eq!(es[1].filename, "drivers");
}

#[test]
fn index_record_other_signature_is_empty() {
    let block = indx_block(&[(32, "config")], b"BAAD");
    assert!(parse_index_record(&block).unwrap().is_empty());
    assert!(is_parse_error(&parse_index_record(&block[..30]).unwrap_err()));
}

#[test]
fn index_record_entry_area_outside_block_fails() {
    let mut reversed = indx_block(&[(32, "config")], b"INDX");
    put32(&mut reversed, 24, 0x100);
    put32(&mut reversed, 28, 0x80);
    assert!(is_parse_error(&parse_index_record(&reversed).unwrap_err()));
    let mut beyond = indx_block(&[(32, "config")], b"INDX");
    put32(&mut beyond, 28, 5000);
    assert!(is_parse_error(&parse_index_record(&beyond).unwrap_err()));
}

#[test]
fn attribute_kind_names() {
    let rec = record_with(&[resident(0x80, b"x"), resident(0xB0, b"y"), resident(0x42, b"z")]);
    let h = parse_file_record_header(&rec).unwrap();
    let names: Vec<&str> = parse_attributes(&rec, &h).unwrap().iter().map(|a| a.kind_name()).collect();
    assert_eq!(names, vec!["$DATA", "$BITMAP", "Unknown"]);
}

#[test]
fn index_record_fixup_mismatch_fails() {
    let mut block = indx_block(&[(32, "config")], b"INDX");
    block[1022] ^= 0xFF;
    match parse_index_record(&block) {
        Err(FactError::ParseError { details, .. }) => assert_eq!(details, "fixup mismatch"),
        other => panic!("unexpected {:?}", other),
    }
}

#[test]
fn file_name_attribute() {
    let mut b = vec![0u8; 66 + 2 * 4];
    put64(&mut b, 0, 0x0005_0000_0000_0005);
    put64(&mut b, 8, 132_000_000_000_000_000);
    put64(&mut b, 48, 1234);
    put32(&mut b, 56, 0x20);
    b[64] = 4;
    b[65] = 3;
    for (i, u) in "Café".encode_utf16().enumerate() {
        put16(&mut b, 66 + 2 * i, u);
    }
    let f = parse_file_name(&b).unwrap();
    assert_eq!(f.parent_directory, 0x0005_0000_0000_0005);
    assert_eq!(f.creation_time, 132_000_000_000_000_000);
    assert_eq!(f.real_size, 1234);
    assert_eq!(f.flags, 0x20);
    assert_eq!(f.name_length, 4);
    assert_eq!(f.namespace, 3);
    assert_eq!(f.name, "Café");
    assert!(is_parse_error(&parse_file_name(&b[..70]).unwrap_err()));
    assert!(is_parse_error(&parse_file_name(&b[..60]).unwrap_err()));
}

#[test]
fn standard_information_and_times() {
    let mut b = vec![0u8; 48];
    put64(&mut b, 0, 132_000_000_000_000_000);
    put64(&mut b, 24, 116_444_736_000_000_000);
    put32(&mut b, 32, 0x26);
    let si = parse_standard_information(&b).unwrap();
    assert_eq!(si.creation_time, 132_000_000_000_000_000);
    assert_eq!(si.file_flags, 0x26);
    assert!(is_parse_error(&parse_standard_information(&b[..47]).unwrap_err()));
    assert_eq!(
        StandardInformation::to_unix_time(si.creation_time),
        UnixTime { seconds: 1_555_526_400, nanoseconds: 0 }
    );
    assert_eq!(StandardInformation::to_unix_time(si.access_time), UnixTime { seconds: 0, nanoseconds: 0 });
    assert_eq!(
        StandardInformation::to_unix_time(116_444_736_000_000_123),
        UnixTime { seconds: 0, nanoseconds: 12_300 }
    );
    assert_eq!(StandardInformation::to_unix_time(5), UnixTime { seconds: 0, nanoseconds: 0 });
}

#[test]
fn ascii_case_insensitive_names() {
    assert!(names_match("WINDOWS", "Windows"));
    assert!(names_match("sam", "SAM"));
    assert!(!names_match("SAM", "SAMx"));
    assert!(!names_match("É", "é"));
}
