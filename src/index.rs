use vstd::prelude::*;
use crate::bytes::{le16, le32, le64, read_u16, read_u32, read_u64};
use crate::error::{parse_error, FactError};
use crate::fixup::{all_sectors_match, apply_usa, fixed_up, usa_in_bounds};
use crate::names::{decode_utf16, utf16_lossy};

verus! {

/// Bytes of an index entry's fixed header.
pub const INDEX_ENTRY_HEADER_SIZE: usize = 16;

/// Offset of the name within a $FILE_NAME stream.
pub const FILE_NAME_NAME_OFFSET: usize = 66;

/// Bytes of an INDX record header, including its node header.
pub const INDEX_RECORD_HEADER_SIZE: usize = 40;

/// Offset of the node header within an INDX record.
pub const INDEX_NODE_HEADER_OFFSET: usize = 24;

/// Mask of the MFT index within a file reference (the upper 16 bits are a
/// sequence number).
pub const FILE_REFERENCE_MASK: u64 = 0x0000_FFFF_FFFF_FFFF;

/// The node header shared by $INDEX_ROOT and INDX records.
#[derive(Debug, Clone, Copy, PartialEq, Eq)]
pub struct IndexHeader {
    /// Offset of the first entry, from the start of this header.
    pub first_entry_offset: u32,
    /// Bytes in use by the entries, from the start of this header.
    pub total_size_of_entries: u32,
    pub allocated_size: u32,
    /// 0x00: leaf; 0x01: has children.
    pub flags: u8,
}

/// The fixed part of a resident $INDEX_ROOT body.
#[derive(Debug, Clone, Copy, PartialEq, Eq)]
pub struct IndexRootAttribute {
    /// Usually 0x30 ($FILE_NAME).
    pub attribute_type: u32,
    pub collation_rule: u32,
    pub index_allocation_size: u32,
    pub clusters_per_index_record: u8,
    pub header: IndexHeader,
}

/// The header of a 4096-byte INDX block.
#[derive(Debug, Clone, Copy, PartialEq, Eq)]
pub struct IndexRecordHeader {
    /// "INDX".
    pub signature: [u8; 4],
    pub usa_offset: u16,
    pub usa_count: u16,
    pub lsn: u64,
    pub vcn: u64,
    pub header: IndexHeader,
}

/// A directory entry.
#[derive(Debug, Clone)]
pub struct IndexEntry {
    /// MFT index of the child (the low 48 bits of its file reference).
    pub file_reference: u64,
    pub length: u16,
    pub stream_length: u16,
    /// 0x02: last entry of the node.
    pub flags: u8,
    pub filename: String,
}

/// An index entry as a mathematical value.
pub struct IndexEntryView {
    pub file_reference: u64,
    pub length: u16,
    pub stream_length: u16,
    pub flags: u8,
    pub filename: Seq<char>,
}

impl View for IndexEntry {
    type V = IndexEntryView;

    open spec fn view(&self) -> IndexEntryView {
        IndexEntryView {
            file_reference: self.file_reference,
            length: self.length,
            stream_length: self.stream_length,
            flags: self.flags,
            filename: self.filename@,
        }
    }
}

pub open spec fn index_header_at(b: Seq<u8>, at: int) -> IndexHeader {
    IndexHeader {
        first_entry_offset: le32(b, at) as u32,
        total_size_of_entries: le32(b, at + 4) as u32,
        allocated_size: le32(b, at + 8) as u32,
        flags: b[at + 12],
    }
}

pub open spec fn index_root_at(b: Seq<u8>) -> IndexRootAttribute {
    IndexRootAttribute {
        attribute_type: le32(b, 0) as u32,
        collation_rule: le32(b, 4) as u32,
        index_allocation_size: le32(b, 8) as u32,
        clusters_per_index_record: b[12],
        header: index_header_at(b, 16),
    }
}

pub open spec fn index_record_header_at(b: Seq<u8>) -> IndexRecordHeader {
    IndexRecordHeader {
        signature: [b[0], b[1], b[2], b[3]],
        usa_offset: le16(b, 4) as u16,
        usa_count: le16(b, 6) as u16,
        lsn: le64(b, 8) as u64,
        vcn: le64(b, 16) as u64,
        header: index_header_at(b, 24),
    }
}

/// The `n` UTF-16LE code units at `at`.
pub open spec fn utf16_units(b: Seq<u8>, at: int, n: int) -> Seq<u16> {
    Seq::new(n as nat, |k: int| le16(b, at + 2 * k) as u16)
}

/// The name of the entry at `pos`: taken from its $FILE_NAME stream when the
/// entry has one that fits in `b`, else empty.
pub open spec fn entry_name_at(b: Seq<u8>, pos: int) -> Seq<char> {
    let fn_base = pos + 16;
    if le16(b, pos + 10) > 0 && fn_base + 66 <= b.len() && fn_base + 66 + 2 * b[fn_base + 64]
        <= b.len() {
        utf16_lossy(utf16_units(b, fn_base + 66, b[fn_base + 64] as int))
    } else {
        seq![]
    }
}

pub open spec fn entry_at(b: Seq<u8>, pos: int) -> IndexEntryView {
    IndexEntryView {
        file_reference: (le64(b, pos) % 0x1_0000_0000_0000) as u64,
        length: le16(b, pos + 8) as u16,
        stream_length: le16(b, pos + 10) as u16,
        flags: b[pos + 12],
        filename: entry_name_at(b, pos),
    }
}

/// The flag bit that marks the last entry of a node.
pub open spec fn is_last_entry(flags: u8) -> bool {
    (flags / 2) % 2 == 1
}

/// The named entries of the list that starts at `pos`: stop where a 16-byte
/// header no longer fits or the length is 0; advance by each entry's length
/// and stop after an entry marked last; drop entries with an empty name.
pub open spec fn entries_from(b: Seq<u8>, pos: int) -> Seq<IndexEntryView>
    decreases if pos <= b.len() { b.len() - pos } else { 0 },
{
    if pos < 0 || pos + 16 > b.len() || le16(b, pos + 8) <= 0 {
        seq![]
    } else {
        let e = entry_at(b, pos);
        let rest = if is_last_entry(b[pos + 12]) {
            seq![]
        } else {
            entries_from(b, pos + le16(b, pos + 8))
        };
        if e.filename.len() > 0 {
            seq![e] + rest
        } else {
            rest
        }
    }
}

/// Reads `n` UTF-16LE code units at `at`.
pub(crate) fn read_utf16_units(b: &[u8], at: usize, n: usize) -> (r: Vec<u16>)
    requires
        at + 2 * n <= b@.len(),
    ensures
        r@ == utf16_units(b@, at as int, n as int),
{
    let total = b.len();
    let mut units: Vec<u16> = Vec::new();
    let mut k: usize = 0;
    while k < n
        invariant
            total == b@.len(),
            at + 2 * n <= total,
            k <= n,
            units@ == utf16_units(b@, at as int, k as int),
        decreases n - k,
    {
        units.push(read_u16(b, at + 2 * k));
        k = k + 1;
        proof {
            assert(units@ =~= utf16_units(b@, at as int, k as int));
        }
    }
    units
}

/// Decodes the name of the entry at `pos`.
fn entry_name(data: &[u8], pos: usize, stream_length: u16) -> (r: String)
    requires
        pos + 16 <= data@.len(),
        stream_length == le16(data@, pos + 10),
    ensures
        r@ == entry_name_at(data@, pos as int),
{
    let len = data.len();
    if stream_length > 0 && len - pos - 16 >= FILE_NAME_NAME_OFFSET {
        let fn_base = pos + 16;
        let name_len = data[fn_base + 64] as usize;
        if len - fn_base - FILE_NAME_NAME_OFFSET >= 2 * name_len {
            let units = read_utf16_units(data, fn_base + FILE_NAME_NAME_OFFSET, name_len);
            return decode_utf16(&units);
        }
    }
    String::new()
}

/// Decodes a list of index entries, keeping those with a non-empty name.
pub fn parse_index_entries(data: &[u8]) -> (r: Result<Vec<IndexEntry>, FactError>)
    ensures
        r is Ok,
        r->Ok_0@.map_values(|e: IndexEntry| e@) == entries_from(data@, 0),
{
    let len = data.len();
    let mut entries: Vec<IndexEntry> = Vec::new();
    let mut cursor: usize = 0;
    loop
        invariant
            len == data@.len(),
            entries_from(data@, 0) == entries@.map_values(|e: IndexEntry| e@) + entries_from(
                data@,
                cursor as int,
            ),
        ensures
            entries_from(data@, 0) == entries@.map_values(|e: IndexEntry| e@),
        decreases len - cursor,
    {
        let ghost before = entries@.map_values(|e: IndexEntry| e@);
        if cursor > len || len - cursor < INDEX_ENTRY_HEADER_SIZE {
            proof {
                assert(before + seq![] =~= before);
            }
            break;
        }
        let length = read_u16(data, cursor + 8);
        if length == 0 {
            proof {
                assert(before + seq![] =~= before);
            }
            break;
        }
        let file_reference = read_u64(data, cursor) % 0x1_0000_0000_0000;
        let stream_length = read_u16(data, cursor + 10);
        let flags = data[cursor + 12];
        let filename = entry_name(data, cursor, stream_length);
        let named = filename.as_str().unicode_len() > 0;
        let entry = IndexEntry { file_reference, length, stream_length, flags, filename };
        let ghost ev = entry@;
        assert(ev == entry_at(data@, cursor as int));
        if named {
            entries.push(entry);
            proof {
                assert(entries@.map_values(|e: IndexEntry| e@) =~= before + seq![ev]);
            }
        }
        let last = (flags / 2) % 2 == 1;
        if last || length as usize > len - cursor {
            proof {
                let after = entries@.map_values(|e: IndexEntry| e@);
                if !last {
                    assert(entries_from(data@, cursor + length) == Seq::<IndexEntryView>::empty());
                }
                if named {
                    assert(entries_from(data@, cursor as int) =~= seq![ev]);
                    assert(before + seq![ev] =~= after + Seq::<IndexEntryView>::empty());
                } else {
                    assert(entries_from(data@, cursor as int) =~= seq![]);
                    assert(before + seq![] =~= after + Seq::<IndexEntryView>::empty());
                }
            }
            cursor = len;
            break;
        }
        proof {
            let rest = entries_from(data@, cursor + length);
            let after = entries@.map_values(|e: IndexEntry| e@);
            if named {
                assert(before + (seq![ev] + rest) =~= after + rest);
            } else {
                assert(after =~= before);
            }
        }
        cursor = cursor + length as usize;
    }
    Ok(entries)
}

/// Decodes the fixed part of an $INDEX_ROOT body. Fails on fewer than 32 bytes.
pub fn parse_index_root(data: &[u8]) -> (r: Result<IndexRootAttribute, FactError>)
    ensures
        data@.len() >= 32 <==> r is Ok,
        r is Ok ==> r->Ok_0 == index_root_at(data@),
        r is Err ==> r->Err_0 is ParseError,
{
    if data.len() < 32 {
        return Err(parse_error("Index Root", "index root shorter than 32 bytes"));
    }
    Ok(IndexRootAttribute {
        attribute_type: read_u32(data, 0),
        collation_rule: read_u32(data, 4),
        index_allocation_size: read_u32(data, 8),
        clusters_per_index_record: data[12],
        header: IndexHeader {
            first_entry_offset: read_u32(data, 16),
            total_size_of_entries: read_u32(data, 20),
            allocated_size: read_u32(data, 24),
            flags: data[28],
        },
    })
}

/// The signature of an INDX block.
pub open spec fn is_indx_signature(b: Seq<u8>) -> bool {
    b[0] == 0x49 && b[1] == 0x4E && b[2] == 0x44 && b[3] == 0x58
}

/// The entries of an INDX block: `None` where decoding fails (short block,
/// update sequence array out of bounds, a fixup mismatch, or an entry area
/// that is reversed or leaves the block); no entries for a block with
/// another signature.
pub open spec fn index_block_entries(b: Seq<u8>) -> Option<Seq<IndexEntryView>> {
    if b.len() < 40 {
        None
    } else if !is_indx_signature(b) {
        Some(seq![])
    } else {
        let h = index_record_header_at(b);
        if !usa_in_bounds(b.len() as int, h.usa_offset, h.usa_count) || !all_sectors_match(
            b,
            h.usa_offset,
            h.usa_count,
        ) {
            None
        } else {
            let f = fixed_up(b, h.usa_offset, h.usa_count);
            let start = 24 + h.header.first_entry_offset;
            let end = 24 + h.header.total_size_of_entries;
            if start <= end && end <= f.len() {
                Some(entries_from(f.subrange(start, end), 0))
            } else {
                None
            }
        }
    }
}

/// Decodes one INDX block: applies its fixup to a copy, then parses the
/// entries of its node.
pub fn parse_index_record(data: &[u8]) -> (r: Result<Vec<IndexEntry>, FactError>)
    ensures
        index_block_entries(data@) is Some <==> r is Ok,
        r is Ok ==> r->Ok_0@.map_values(|e: IndexEntry| e@) == index_block_entries(data@)->Some_0,
        r is Err ==> r->Err_0 is ParseError,
        data@.len() >= 40 && is_indx_signature(data@) && usa_in_bounds(
            data@.len() as int,
            index_record_header_at(data@).usa_offset,
            index_record_header_at(data@).usa_count,
        ) && !all_sectors_match(
            data@,
            index_record_header_at(data@).usa_offset,
            index_record_header_at(data@).usa_count,
        ) ==> r->Err_0->details@ == "fixup mismatch"@,
{
    if data.len() < INDEX_RECORD_HEADER_SIZE {
        return Err(parse_error("Index Record", "index record shorter than its header"));
    }
    if !(data[0] == 0x49 && data[1] == 0x4E && data[2] == 0x44 && data[3] == 0x58) {
        proof {
            assert(Seq::<IndexEntry>::empty().map_values(|e: IndexEntry| e@) =~= seq![]);
        }
        return Ok(Vec::new());
    }
    let usa_offset = read_u16(data, 4);
    let usa_count = read_u16(data, 6);
    let first = read_u32(data, 24);
    let total = read_u32(data, 28);
    let mut fixed = vstd::slice::slice_to_vec(data);
    apply_usa(fixed.as_mut_slice(), usa_offset, usa_count)?;
    let start = INDEX_NODE_HEADER_OFFSET as u64 + first as u64;
    let end = INDEX_NODE_HEADER_OFFSET as u64 + total as u64;
    let n = fixed.len();
    if start <= end && end <= n as u64 {
        let area = vstd::slice::slice_subrange(fixed.as_slice(), start as usize, end as usize);
        return parse_index_entries(area);
    }
    Err(parse_error("Index Record", "entry area outside the block"))
}

} // verus!
