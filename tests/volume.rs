use ntfs_collector::artifacts::{data_source, ArtifactTarget, DataSource, TargetType};
use ntfs_collector::boot::parse_boot_sector;
use ntfs_collector::directory::{
    directory_sources, find_child, index_allocation_entries, path_components, IndexSource,
};
use ntfs_collector::error::FactError;
use ntfs_collector::mft::{fixup_record, Extent, MftReader};
use ntfs_collector::attributes::parse_file_name;
use ntfs_collector::record::{parse_attribute_chain, parse_file_record_header};
use ntfs_collector::runlist::DataRun;
use ntfs_collector::session::{Action, Collection};

const CLUSTER: u64 = 4096;
const MFT_LCN: u64 = 0xC0000;

fn put16(b: &mut [u8], at: usize, v: u16) {
    b[at..at + 2].copy_from_slice(&v.to_le_bytes());
}

fn put32(b: &mut [u8], at: usize, v: u32) {
    b[at..at + 4].copy_from_slice(&v.to_le_bytes());
}

fn put64(b: &mut [u8], at: usize, v: u64) {
    b[at..at + 8].copy_from_slice(&v.to_le_bytes());
}

/// A sparse in-memory volume: unwritten bytes read as zero.
struct Image {
    regions: Vec<(u64, Vec<u8>)>,
    reads: Vec<Extent>,
}

impl Image {
    fn new() -> Image {
        Image { regions: Vec::new(), reads: Vec::new() }
    }

    fn write(&mut self, offset: u64, bytes: Vec<u8>) {
        self.regions.push((offset, bytes));
    }

    fn read(&mut self, offset: u64, length: u64) -> Vec<u8> {
        self.reads.push(Extent { offset, length });
        let mut out = vec![0u8; length as usize];
        for (start, bytes) in &self.regions {
            for (i, b) in bytes.iter().enumerate() {
                let p = start + i as u64;
                if p >= offset && p < offset + length {
                    out[(p - offset) as usize] = *b;
                }
            }
        }
        out
    }

    fn record_offset(index: u64) -> u64 {
        MFT_LCN * CLUSTER + index * 1024
    }

    fn write_record(&mut self, index: u64, rec: Vec<u8>) {
        self.write(Self::record_offset(index), rec);
    }
}

fn protected(mut b: Vec<u8>, usa_offset: usize, sectors: usize, usn: u16) -> Vec<u8> {
    put16(&mut b, usa_offset, usn);
    for i in 0..sectors {
        let tail = (i + 1) * 512 - 2;
        let orig = [b[tail], b[tail + 1]];
        b[usa_offset + 2 + 2 * i] = orig[0];
        b[usa_offset + 3 + 2 * i] = orig[1];
        put16(&mut b, tail, usn);
    }
    b
}

fn record_with(attrs: &[Vec<u8>], flags: u16) -> Vec<u8> {
    let mut r = vec![0u8; 1024];
    r[0..4].copy_from_slice(b"FILE");
    put16(&mut r, 4, 0x30);
    put16(&mut r, 6, 3);
    put16(&mut r, 20, 0x38);
    put16(&mut r, 22, flags);
    let mut at = 0x38;
    for a in attrs {
        r[at..at + a.len()].copy_from_slice(a);
        at += a.len();
    }
    put32(&mut r, at, 0xFFFF_FFFF);
    put32(&mut r, 24, (at + 4) as u32);
    put32(&mut r, 28, 1024);
    // Make the sector tails carry data, so a missing fixup would show.
    r[1022] = 0x5A;
    protected(r, 0x30, 2, 0x0001)
}

fn resident(type_code: u32, content: &[u8]) -> Vec<u8> {
    let len = (24 + content.len() + 7) / 8 * 8;
    let mut a = vec![0u8; len];
    put32(&mut a, 0, type_code);
    put32(&mut a, 4, len as u32);
    put16(&mut a, 10, 24);
    put32(&mut a, 16, content.len() as u32);
    put16(&mut a, 20, 24);
    a[24..24 + content.len()].copy_from_slice(content);
    a
}

fn non_resident(type_code: u32, runlist: &[u8], real_size: u64) -> Vec<u8> {
    let len = (64 + runlist.len() + 7) / 8 * 8;
    let mut a = vec![0u8; len];
    put32(&mut a, 0, type_code);
    put32(&mut a, 4, len as u32);
    a[8] = 1;
    put16(&mut a, 32, 64);
    put64(&mut a, 40, real_size);
    put64(&mut a, 48, real_size);
    put64(&mut a, 56, real_size);
    a[64..64 + runlist.len()].copy_from_slice(runlist);
    a
}

fn file_name_body(parent: u64, name: &str) -> Vec<u8> {
    let units: Vec<u16> = name.encode_utf16().collect();
    let mut b = vec![0u8; 66 + 2 * units.len()];
    put64(&mut b, 0, parent);
    b[64] = units.len() as u8;
    b[65] = 1;
    for (i, u) in units.iter().enumerate() {
        put16(&mut b, 66 + 2 * i, *u);
    }
    b
}

fn name_entry(reference: u64, name: &str) -> Vec<u8> {
    let body = file_name_body(5, name);
    let len = (16 + body.len() + 7) / 8 * 8;
    let mut e = vec![0u8; len];
    put64(&mut e, 0, reference);
    put16(&mut e, 8, len as u16);
    put16(&mut e, 10, body.len() as u16);
    e[16..16 + body.len()].copy_from_slice(&body);
    e
}

fn end_entry() -> Vec<u8> {
    let mut e = vec![0u8; 16];
    put16(&mut e, 8, 16);
    e[12] = 0x02;
    e
}

fn entry_list(names: &[(u64, &str)]) -> Vec<u8> {
    let mut entries = Vec::new();
    for (r, n) in names {
        entries.extend(name_entry(*r, n));
    }
    entries.extend(end_entry());
    entries
}

fn index_root(names: &[(u64, &str)]) -> Vec<u8> {
    let entries = entry_list(names);
    let mut b = vec![0u8; 32];
    put32(&mut b, 0, 0x30);
    put32(&mut b, 8, 4096);
    b[12] = 1;
    put32(&mut b, 16, 16);
    put32(&mut b, 20, 16 + entries.len() as u32);
    put32(&mut b, 24, 16 + entries.len() as u32);
    b.extend(entries);
    resident(0x90, &b)
}

fn indx_block(names: &[(u64, &str)], signature: &[u8; 4]) -> Vec<u8> {
    let mut b = vec![0u8; 4096];
    b[0..4].copy_from_slice(signature);
    put16(&mut b, 4, 0x28);
    put16(&mut b, 6, 9);
    let entries = entry_list(names);
    put32(&mut b, 24, 0x28);
    put32(&mut b, 28, 0x28 + entries.len() as u32);
    put32(&mut b, 32, 4096 - 24);
    b[0x40..0x40 + entries.len()].copy_from_slice(&entries);
    protected(b, 0x28, 8, 0x0102)
}

/// One run of `length` clusters at `lcn` (relative to cluster 0), 4-byte fields.
fn single_run(lcn: u64, length: u64) -> Vec<u8> {
    let mut r = vec![0x44];
    r.extend(&(length as u32).to_le_bytes());
    r.extend(&(lcn as u32).to_le_bytes());
    r.push(0);
    r
}

fn boot_sector() -> Vec<u8> {
    let mut b = vec![0u8; 512];
    put16(&mut b, 0x0B, 512);
    b[0x0D] = 8;
    put64(&mut b, 0x30, MFT_LCN);
    b
}

const WINDOWS: u64 = 30;
const SYSTEM32: u64 = 31;
const CONFIG: u64 = 32;
const SAM: u64 = 33;

/// A volume with $MFT at cluster 0xC0000 (0x2000 clusters), a resident
/// $LogFile, and Windows\System32\config\SAM holding 64 KiB of data.
fn volume() -> Image {
    let mut img = Image::new();
    img.write(0, boot_sector());
    let mft_runs = [0x32, 0x00, 0x20, 0x00, 0x00, 0x0C, 0x00];
    img.write_record(0, record_with(&[non_resident(0x80, &mft_runs, 0x2000 * CLUSTER)], 1));
    let log: Vec<u8> = (0..32u8).collect();
    img.write_record(2, record_with(&[resident(0x80, &log)], 1));
    img.write_record(5, record_with(&[index_root(&[(0x0001_0000_0000_0000 | WINDOWS, "Windows")])], 3));
    img.write_record(
        WINDOWS,
        record_with(&[resident(0x30, &file_name_body(5, "Windows")), index_root(&[(SYSTEM32, "System32")])], 3),
    );
    // System32 keeps its children in an $INDEX_ALLOCATION of two blocks.
    img.write_record(
        SYSTEM32,
        record_with(
            &[
                resident(0x30, &file_name_body(WINDOWS, "System32")),
                index_root(&[]),
                non_resident(0xA0, &single_run(0x2000, 2), 8192),
            ],
            3,
        ),
    );
    img.write(0x2000 * CLUSTER, indx_block(&[(40, "cmd.exe")], b"INDX"));
    img.write(0x2001 * CLUSTER, indx_block(&[(CONFIG, "config")], b"INDX"));
    img.write_record(
        CONFIG,
        record_with(&[resident(0x30, &file_name_body(SYSTEM32, "config")), index_root(&[(SAM, "SAM")])], 3),
    );
    img.write_record(
        SAM,
        record_with(
            &[resident(0x30, &file_name_body(CONFIG, "SAM")), non_resident(0x80, &single_run(0x3000, 16), 65536)],
            1,
        ),
    );
    let hive: Vec<u8> = (0..65536u32).map(|i| (i % 251) as u8).collect();
    img.write(0x3000 * CLUSTER, hive);
    img
}

fn reader(img: &mut Image) -> MftReader {
    let bs = parse_boot_sector(&img.read(0, 512)).unwrap();
    let entry0 = img.read(bs.mft_offset(), 1024);
    MftReader::bootstrap(&bs, entry0).unwrap()
}

fn drive(img: &mut Image, start: (Collection, Action)) -> Action {
    let (mut c, mut a) = start;
    loop {
        match a {
            Action::Read(extents) => {
                let mut buf = Vec::new();
                for e in extents {
                    buf.extend(img.read(e.offset, e.length));
                }
                a = c.resume(Ok(buf));
            },
            done => return done,
        }
    }
}

fn collect(img: &mut Image, target: ArtifactTarget) -> Result<Vec<u8>, FactError> {
    let r = reader(img);
    match drive(img, Collection::start(r, target)) {
        Action::Finish(r) => r,
        other => panic!("unexpected {:?}", other),
    }
}

fn locate(img: &mut Image, path: &str) -> Result<u64, FactError> {
    let r = reader(img);
    match drive(img, Collection::locate(r, path)) {
        Action::Located(i) => Ok(i),
        Action::Finish(Err(e)) => Err(e),
        other => panic!("unexpected {:?}", other),
    }
}

fn read_record(img: &mut Image, r: &MftReader, index: u64) -> Result<Vec<u8>, FactError> {
    let offset = r.record_offset(index)?;
    fixup_record(img.read(offset, 1024))
}

fn list_directory(img: &mut Image, r: &MftReader, dir: u64) -> Vec<ntfs_collector::index::IndexEntry> {
    let rec = read_record(img, r, dir).unwrap();
    let mut entries = Vec::new();
    for s in directory_sources(&rec).unwrap() {
        match s {
            IndexSource::Entries(es) => entries.extend(es),
            IndexSource::Allocation(runs) => {
                let mut stream = Vec::new();
                for e in r.extents(&runs, 20 * 1024 * 1024).unwrap() {
                    stream.extend(img.read(e.offset, e.length));
                }
                entries.extend(index_allocation_entries(&stream));
            },
        }
    }
    entries
}

#[test]
fn bootstrap_keeps_mft_runlist() {
    let mut img = volume();
    let r = reader(&mut img);
    assert_eq!(r.cluster_size(), 4096);
    assert_eq!(r.record_offset(0).unwrap(), 0xC0000 * 4096);
}

#[test]
fn bootstrap_rejects_bad_entry_zero() {
    let bs = parse_boot_sector(&boot_sector()).unwrap();
    let mut bad = record_with(&[resident(0x80, b"resident")], 1);
    assert!(matches!(MftReader::bootstrap(&bs, bad.clone()), Err(FactError::ParseError { .. })));
    bad[0..4].copy_from_slice(b"BAAD");
    assert!(matches!(MftReader::bootstrap(&bs, bad), Err(FactError::ParseError { .. })));
}

#[test]
fn record_five_location_and_signature() {
    let mut img = volume();
    let r = reader(&mut img);
    assert_eq!(r.record_offset(5).unwrap(), 0xC0000 * 4096 + 5 * 1024);
    assert_eq!(r.record_offset(5).unwrap(), 3221230592);
    let rec = read_record(&mut img, &r, 5).unwrap();
    assert_eq!(rec.len(), 1024);
    assert_eq!(&rec[0..4], b"FILE");
    assert_eq!(rec[1022], 0x5A);
}

#[test]
fn records_carry_file_signature() {
    let mut img = volume();
    let r = reader(&mut img);
    for i in [0u64, 2, 5, WINDOWS, SYSTEM32, CONFIG, SAM] {
        let rec = read_record(&mut img, &r, i).unwrap();
        assert_eq!(rec.len(), 1024);
        let h = parse_file_record_header(&rec).unwrap();
        assert!(&h.signature == b"FILE" || &h.signature == b"BAAD");
    }
}

#[test]
fn record_beyond_runlist_is_out_of_range() {
    let mut img = volume();
    let r = reader(&mut img);
    let last = 0x2000 * 4 - 1;
    assert!(r.record_offset(last).is_ok());
    assert!(matches!(r.record_offset(last + 1), Err(FactError::IndexOutOfRange(i)) if i == last + 1));
    assert!(matches!(r.record_offset(u64::MAX), Err(FactError::IndexOutOfRange(_))));
}

#[test]
fn extents_are_capped() {
    let mut img = volume();
    let r = reader(&mut img);
    let runs = vec![DataRun { start_lcn: 10, length: 2 }, DataRun { start_lcn: 100, length: 4 }];
    let ex = r.extents(&runs, 10000).unwrap();
    assert_eq!(ex, vec![Extent { offset: 40960, length: 8192 }, Extent { offset: 409600, length: 1808 }]);
    assert!(r.extents(&runs, 0).unwrap().is_empty());
    let far = vec![DataRun { start_lcn: u64::MAX / 2, length: 1 }];
    assert!(matches!(r.extents(&far, 10), Err(FactError::ParseError { .. })));
}

#[test]
fn resolve_registry_path() {
    let mut img = volume();
    assert_eq!(locate(&mut img, "Windows\\System32\\config\\SAM").unwrap(), SAM);
    let r = reader(&mut img);
    let root = list_directory(&mut img, &r, 5);
    assert_eq!(find_child(&root, "Windows"), Some(WINDOWS));
    let w = list_directory(&mut img, &r, WINDOWS);
    assert_eq!(find_child(&w, "System32"), Some(SYSTEM32));
    let s = list_directory(&mut img, &r, SYSTEM32);
    assert_eq!(find_child(&s, "config"), Some(CONFIG));
    let c = list_directory(&mut img, &r, CONFIG);
    assert_eq!(find_child(&c, "SAM"), Some(SAM));
}

#[test]
fn resolve_ignores_ascii_case() {
    let mut img = volume();
    let exact = locate(&mut img, "Windows\\System32\\config\\SAM").unwrap();
    let folded = locate(&mut img, "WINDOWS\\system32\\CONFIG\\sam").unwrap();
    assert_eq!(exact, folded);
    assert_eq!(locate(&mut img, "\\\\Windows\\\\").unwrap(), WINDOWS);
    assert_eq!(locate(&mut img, "").unwrap(), 5);
}

#[test]
fn resolve_missing_component() {
    let mut img = volume();
    match locate(&mut img, "Windows\\Temp\\x") {
        Err(FactError::PathNotFound(s)) => assert_eq!(s, "Temp"),
        other => panic!("unexpected {:?}", other),
    }
}

#[test]
fn listed_children_name_their_parent() {
    let mut img = volume();
    let r = reader(&mut img);
    for dir in [WINDOWS, SYSTEM32, CONFIG] {
        for e in list_directory(&mut img, &r, dir) {
            if e.file_reference == 40 {
                continue;
            }
            let rec = read_record(&mut img, &r, e.file_reference).unwrap();
            let h = parse_file_record_header(&rec).unwrap();
            let chain = parse_attribute_chain(&rec, h.attr_offset as usize).unwrap();
            let fname = chain.iter().find(|a| a.header.type_code == 0x30).unwrap();
            let start = fname.offset + 24;
            let f = parse_file_name(&rec[start..fname.offset + fname.header.length as usize]).unwrap();
            assert_eq!(f.parent_directory & 0x0000_FFFF_FFFF_FFFF, dir);
        }
    }
}

#[test]
fn collect_registry_hive() {
    let mut img = volume();
    let data = collect(&mut img, ArtifactTarget::RegistrySAM).unwrap();
    assert_eq!(data.len(), 65536);
    assert_eq!(data[0], 0);
    assert_eq!(data[65535], (65535 % 251) as u8);
}

#[test]
fn collect_resident_logfile() {
    let mut img = volume();
    let data = collect(&mut img, ArtifactTarget::LogFile).unwrap();
    let expected: Vec<u8> = (0..32u8).collect();
    assert_eq!(data, expected);
}

#[test]
fn collect_missing_hive_fails() {
    let mut img = volume();
    assert!(matches!(collect(&mut img, ArtifactTarget::RegistrySYSTEM), Err(FactError::PathNotFound(_))));
}

#[test]
fn collect_directory_without_data_is_empty() {
    let mut img = volume();
    assert!(collect(&mut img, ArtifactTarget::RootDirectory).unwrap().is_empty());
}

#[test]
fn collect_read_error_is_returned() {
    let mut img = volume();
    let r = reader(&mut img);
    let (mut c, a) = Collection::start(r, ArtifactTarget::LogFile);
    assert!(matches!(a, Action::Read(_)));
    match c.resume(Err(FactError::Io("device gone".to_string()))) {
        Action::Finish(Err(FactError::Io(s))) => assert_eq!(s, "device gone"),
        other => panic!("unexpected {:?}", other),
    }
}

#[test]
fn resident_data_with_zero_length_is_empty() {
    let rec = fixup_record(record_with(&[resident(0x80, &[])], 1)).unwrap();
    match data_source(&rec).unwrap() {
        DataSource::Resident(b) => assert!(b.is_empty()),
        other => panic!("unexpected {:?}", other),
    }
}

#[test]
fn runlist_offset_at_attribute_end_fails() {
    let mut alloc = non_resident(0xA0, &single_run(0x2000, 2), 8192);
    let len = alloc.len() as u16;
    put16(&mut alloc, 32, len);
    let rec = fixup_record(record_with(&[index_root(&[]), alloc], 3)).unwrap();
    assert!(matches!(directory_sources(&rec), Err(FactError::ParseError { .. })));
}

#[test]
fn index_root_past_record_fails() {
    let mut rec = fixup_record(record_with(&[index_root(&[(7, "a")])], 3)).unwrap();
    put32(&mut rec, 0x38 + 4, 2000);
    assert!(matches!(directory_sources(&rec), Err(FactError::ParseError { .. })));
}

#[test]
fn record_without_sequence_array_fails() {
    let mut rec = record_with(&[resident(0x80, b"x")], 1);
    put16(&mut rec, 6, 0);
    assert!(matches!(fixup_record(rec), Err(FactError::ParseError { .. })));
}

#[test]
fn data_source_unsupported_forms() {
    let list = fixup_record(record_with(&[resident(0x20, &[0u8; 32]), resident(0x80, b"x")], 1)).unwrap();
    assert!(matches!(data_source(&list), Err(FactError::UnsupportedFormat(_))));
    let mut compressed = resident(0x80, b"abc");
    put16(&mut compressed, 12, 0x0001);
    let rec = fixup_record(record_with(&[compressed], 1)).unwrap();
    assert!(matches!(data_source(&rec), Err(FactError::UnsupportedFormat(_))));
    let sparse = fixup_record(record_with(&[non_resident(0x80, &[0x01, 0x10, 0x00], 4096)], 1)).unwrap();
    assert!(matches!(data_source(&sparse), Err(FactError::UnsupportedFormat(_))));
}

#[test]
fn allocation_stream_skips_bad_blocks() {
    let blocks = 12 * 1024 * 1024 / 4096;
    let mut stream = vec![0u8; blocks * 4096];
    let place = |s: &mut Vec<u8>, k: usize, b: Vec<u8>| s[k * 4096..(k + 1) * 4096].copy_from_slice(&b);
    place(&mut stream, 0, indx_block(&[(100, "a.txt"), (101, "b.txt")], b"INDX"));
    place(&mut stream, 500, indx_block(&[(102, "hidden")], b"BAAD"));
    place(&mut stream, 1000, indx_block(&[(103, "c.txt")], b"INDX"));
    let mut broken = indx_block(&[(104, "torn")], b"INDX");
    broken[1023] ^= 0x01;
    place(&mut stream, 2000, broken);
    place(&mut stream, blocks - 1, indx_block(&[(105, "d.txt")], b"INDX"));
    let es = index_allocation_entries(&stream);
    let names: Vec<&str> = es.iter().map(|e| e.filename.as_str()).collect();
    assert_eq!(names, vec!["a.txt", "b.txt", "c.txt", "d.txt"]);
    assert_eq!(es[3].file_reference, 105);
}

#[test]
fn targets_by_index_and_path() {
    assert_eq!(ArtifactTarget::LogFile.get_index(), Some(2));
    assert_eq!(ArtifactTarget::Extend.get_index(), Some(11));
    assert_eq!(ArtifactTarget::MFT.get_type(), TargetType::Index);
    assert_eq!(ArtifactTarget::RegistrySAM.get_type(), TargetType::Path);
    assert_eq!(ArtifactTarget::RegistrySAM.get_index(), None);
    assert_eq!(ArtifactTarget::RegistrySAM.get_path(), Some("Windows\\System32\\config\\SAM"));
    assert_eq!(ArtifactTarget::RegistrySOFTWARE.get_path(), Some("Windows\\System32\\config\\SOFTWARE"));
    assert_eq!(ArtifactTarget::Volume.get_path(), None);
}

#[test]
fn path_components_drop_empty_parts() {
    assert_eq!(path_components("Windows\\System32\\config\\SAM"), vec!["Windows", "System32", "config", "SAM"]);
    assert_eq!(path_components("\\\\a\\\\b\\"), vec!["a", "b"]);
    assert!(path_components("").is_empty());
}
