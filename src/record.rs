use vstd::prelude::*;
use crate::bytes::{le16, le32, le64, read_u16, read_u32, read_u64};
use crate::error::{parse_error, FactError};

verus! {

/// Bytes of the file record header that this library decodes.
pub const FILE_RECORD_HEADER_SIZE: usize = 48;

/// Bytes of the common attribute header.
pub const ATTRIBUTE_HEADER_SIZE: usize = 16;

/// Type code that ends an attribute chain.
pub const END_OF_ATTRIBUTES: u32 = 0xFFFF_FFFF;

/// The header of an MFT file record.
#[derive(Debug, Clone, Copy, PartialEq, Eq)]
pub struct FileRecordHeader {
    /// "FILE", or "BAAD" for a record found corrupt.
    pub signature: [u8; 4],
    pub usa_offset: u16,
    pub usa_count: u16,
    pub lsn: u64,
    pub sequence_number: u16,
    pub link_count: u16,
    /// Offset of the first attribute.
    pub attr_offset: u16,
    /// 0x01: in use; 0x02: directory.
    pub flags: u16,
    pub bytes_in_use: u32,
    pub bytes_allocated: u32,
    pub base_file_record: u64,
    pub next_attr_id: u16,
}

/// The common header that starts every attribute.
#[derive(Debug, Clone, Copy, PartialEq, Eq)]
pub struct AttributeHeader {
    pub type_code: u32,
    pub length: u32,
    pub non_resident_flag: u8,
    pub name_length: u8,
    pub name_offset: u16,
    pub flags: u16,
    pub attribute_id: u16,
}

/// An attribute header together with the offset in the record where it starts.
#[derive(Debug, Clone, Copy, PartialEq, Eq)]
pub struct LocatedAttribute {
    pub offset: usize,
    pub header: AttributeHeader,
}

/// The header of a non-resident attribute, which follows the common header.
#[derive(Debug, Clone, Copy, PartialEq, Eq)]
pub struct NonResidentAttributeHeader {
    pub starting_vcn: u64,
    pub last_vcn: u64,
    /// Offset of the runlist from the start of the attribute.
    pub run_array_offset: u16,
    pub compression_unit: u16,
    pub allocated_size: u64,
    pub real_size: u64,
    pub initialized_size: u64,
}

/// The name NTFS gives an attribute type code.
pub open spec fn attribute_kind_name(type_code: u32) -> Seq<char> {
    if type_code == 0x10 {
        "$STANDARD_INFORMATION"@
    } else if type_code == 0x20 {
        "$ATTRIBUTE_LIST"@
    } else if type_code == 0x30 {
        "$FILE_NAME"@
    } else if type_code == 0x40 {
        "$OBJECT_ID"@
    } else if type_code == 0x50 {
        "$SECURITY_DESCRIPTOR"@
    } else if type_code == 0x60 {
        "$VOLUME_NAME"@
    } else if type_code == 0x70 {
        "$VOLUME_INFORMATION"@
    } else if type_code == 0x80 {
        "$DATA"@
    } else if type_code == 0x90 {
        "$INDEX_ROOT"@
    } else if type_code == 0xA0 {
        "$INDEX_ALLOCATION"@
    } else if type_code == 0xB0 {
        "$BITMAP"@
    } else if type_code == 0xC0 {
        "$REPARSE_POINT"@
    } else if type_code == 0xFFFF_FFFF {
        "End Marker"@
    } else {
        "Unknown"@
    }
}

impl AttributeHeader {
    /// The name of the attribute's type ("$DATA", ...), "End Marker" for the
    /// end of the chain, or "Unknown".
    pub fn kind_name(&self) -> (r: &'static str)
        ensures
            r@ == attribute_kind_name(self.type_code),
    {
        match self.type_code {
            0x10 => "$STANDARD_INFORMATION",
            0x20 => "$ATTRIBUTE_LIST",
            0x30 => "$FILE_NAME",
            0x40 => "$OBJECT_ID",
            0x50 => "$SECURITY_DESCRIPTOR",
            0x60 => "$VOLUME_NAME",
            0x70 => "$VOLUME_INFORMATION",
            0x80 => "$DATA",
            0x90 => "$INDEX_ROOT",
            0xA0 => "$INDEX_ALLOCATION",
            0xB0 => "$BITMAP",
            0xC0 => "$REPARSE_POINT",
            0xFFFF_FFFF => "End Marker",
            _ => "Unknown",
        }
    }
}

pub open spec fn file_record_header_at(b: Seq<u8>) -> FileRecordHeader {
    FileRecordHeader {
        signature: [b[0], b[1], b[2], b[3]],
        usa_offset: le16(b, 4) as u16,
        usa_count: le16(b, 6) as u16,
        lsn: le64(b, 8) as u64,
        sequence_number: le16(b, 16) as u16,
        link_count: le16(b, 18) as u16,
        attr_offset: le16(b, 20) as u16,
        flags: le16(b, 22) as u16,
        bytes_in_use: le32(b, 24) as u32,
        bytes_allocated: le32(b, 28) as u32,
        base_file_record: le64(b, 32) as u64,
        next_attr_id: le16(b, 40) as u16,
    }
}

pub open spec fn attribute_header_at(b: Seq<u8>, at: int) -> AttributeHeader {
    AttributeHeader {
        type_code: le32(b, at) as u32,
        length: le32(b, at + 4) as u32,
        non_resident_flag: b[at + 8],
        name_length: b[at + 9],
        name_offset: le16(b, at + 10) as u16,
        flags: le16(b, at + 12) as u16,
        attribute_id: le16(b, at + 14) as u16,
    }
}

pub open spec fn non_resident_header_at(b: Seq<u8>) -> NonResidentAttributeHeader {
    NonResidentAttributeHeader {
        starting_vcn: le64(b, 16) as u64,
        last_vcn: le64(b, 24) as u64,
        run_array_offset: le16(b, 32) as u16,
        compression_unit: le16(b, 34) as u16,
        allocated_size: le64(b, 40) as u64,
        real_size: le64(b, 48) as u64,
        initialized_size: le64(b, 56) as u64,
    }
}

/// The signature of a file record in use or deleted.
pub open spec fn is_file_signature(s: [u8; 4]) -> bool {
    s@ == seq![0x46u8, 0x49u8, 0x4Cu8, 0x45u8]
}

/// The signature of a record that chkdsk found corrupt.
pub open spec fn is_baad_signature(s: [u8; 4]) -> bool {
    s@ == seq![0x42u8, 0x41u8, 0x41u8, 0x44u8]
}

/// Decodes the header of a file record. Fails on fewer than 48 bytes.
pub fn parse_file_record_header(data: &[u8]) -> (r: Result<FileRecordHeader, FactError>)
    ensures
        data@.len() >= FILE_RECORD_HEADER_SIZE <==> r is Ok,
        r is Ok ==> r->Ok_0 == file_record_header_at(data@),
        r is Err ==> r->Err_0 is ParseError,
{
    if data.len() < FILE_RECORD_HEADER_SIZE {
        return Err(parse_error("MFT Record Header", "record shorter than its header"));
    }
    Ok(FileRecordHeader {
        signature: [data[0], data[1], data[2], data[3]],
        usa_offset: read_u16(data, 4),
        usa_count: read_u16(data, 6),
        lsn: read_u64(data, 8),
        sequence_number: read_u16(data, 16),
        link_count: read_u16(data, 18),
        attr_offset: read_u16(data, 20),
        flags: read_u16(data, 22),
        bytes_in_use: read_u32(data, 24),
        bytes_allocated: read_u32(data, 28),
        base_file_record: read_u64(data, 32),
        next_attr_id: read_u16(data, 40),
    })
}

/// Tells whether a header carries the "FILE" signature.
pub fn has_file_signature(h: &FileRecordHeader) -> (r: bool)
    ensures
        r == is_file_signature(h.signature),
{
    let r = h.signature[0] == 0x46 && h.signature[1] == 0x49 && h.signature[2] == 0x4C
        && h.signature[3] == 0x45;
    proof {
        if r {
            assert(h.signature@ =~= seq![0x46u8, 0x49u8, 0x4Cu8, 0x45u8]);
        }
    }
    r
}

/// The outcome of walking an attribute chain.
pub enum ChainDecode {
    Attrs(Seq<LocatedAttribute>),
    /// An attribute with length 0 was met.
    ZeroLength,
}

/// Walks the attribute chain from `pos`: stop at the end marker or where a
/// 16-byte header would cross the end of the buffer; fail on a zero length;
/// otherwise emit the attribute and advance by its length.
pub open spec fn chain_from(b: Seq<u8>, pos: int) -> ChainDecode
    decreases if pos <= b.len() { b.len() - pos } else { 0 },
{
    if pos < 0 || pos + 16 > b.len() || le32(b, pos) == 0xFFFF_FFFF {
        ChainDecode::Attrs(seq![])
    } else if le32(b, pos + 4) <= 0 {
        ChainDecode::ZeroLength
    } else {
        match chain_from(b, pos + le32(b, pos + 4)) {
            ChainDecode::Attrs(rest) => ChainDecode::Attrs(
                seq![LocatedAttribute { offset: pos as usize, header: attribute_header_at(b, pos) }]
                    + rest,
            ),
            ChainDecode::ZeroLength => ChainDecode::ZeroLength,
        }
    }
}

/// Where the walk of the attribute chain that starts at `pos` stops.
pub open spec fn chain_end(b: Seq<u8>, pos: int) -> int
    decreases if pos <= b.len() { b.len() - pos } else { 0 },
{
    if pos < 0 || pos + 16 > b.len() || le32(b, pos) == 0xFFFF_FFFF || le32(b, pos + 4) <= 0 {
        pos
    } else {
        chain_end(b, pos + le32(b, pos + 4))
    }
}

/// Sum of the `length` fields of a sequence of attributes.
pub open spec fn total_length(s: Seq<LocatedAttribute>) -> int
    decreases s.len(),
{
    if s.len() == 0 {
        0
    } else {
        s[0].header.length + total_length(s.drop_first())
    }
}

/// The `length` fields of a decoded attribute chain add up to the distance
/// from its first attribute to where the walk stops (the end marker, or the
/// point where no further header fits).
pub proof fn lemma_chain_span(b: Seq<u8>, pos: int)
    requires
        chain_from(b, pos) is Attrs,
    ensures
        total_length(chain_from(b, pos)->Attrs_0) == if pos < 0 { 0 } else { chain_end(b, pos) - pos },
    decreases if pos <= b.len() { b.len() - pos } else { 0 },
{
    if pos < 0 || pos + 16 > b.len() || le32(b, pos) == 0xFFFF_FFFF {
    } else {
        let next = pos + le32(b, pos + 4);
        lemma_chain_span(b, next);
        let s = chain_from(b, pos)->Attrs_0;
        assert(s.drop_first() =~= chain_from(b, next)->Attrs_0);
    }
}

/// In a record whose attribute chain runs to an end marker standing in the
/// last four bytes in use, the `length` fields of the decoded attributes add
/// up to `bytes_in_use - attr_offset - 4`.
pub proof fn lemma_chain_lengths_fill_record(b: Seq<u8>)
    requires
        b.len() >= FILE_RECORD_HEADER_SIZE,
        chain_from(b, file_record_header_at(b).attr_offset as int) is Attrs,
        le32(b, chain_end(b, file_record_header_at(b).attr_offset as int)) == 0xFFFF_FFFF,
        chain_end(b, file_record_header_at(b).attr_offset as int) == file_record_header_at(b).bytes_in_use
            - 4,
    ensures
        total_length(chain_from(b, file_record_header_at(b).attr_offset as int)->Attrs_0)
            == file_record_header_at(b).bytes_in_use - file_record_header_at(b).attr_offset - 4,
{
    lemma_chain_span(b, file_record_header_at(b).attr_offset as int);
}

/// Decodes the attribute chain that starts at `first`, with each attribute's offset.
pub fn parse_attribute_chain(data: &[u8], first: usize) -> (r: Result<
    Vec<LocatedAttribute>,
    FactError,
>)
    ensures
        match chain_from(data@, first as int) {
            ChainDecode::Attrs(s) => r is Ok && r->Ok_0@ == s,
            ChainDecode::ZeroLength => r is Err && r->Err_0 is ParseError,
        },
{
    let len = data.len();
    let mut out: Vec<LocatedAttribute> = Vec::new();
    let mut pos: usize = first;
    let ghost whole = chain_from(data@, first as int);
    loop
        invariant
            len == data@.len(),
            whole == chain_from(data@, first as int),
            whole == match chain_from(data@, pos as int) {
                ChainDecode::Attrs(rest) => ChainDecode::Attrs(out@ + rest),
                ChainDecode::ZeroLength => ChainDecode::ZeroLength,
            },
        ensures
            whole == ChainDecode::Attrs(out@),
        decreases len - pos,
    {
        if pos > len || len - pos < ATTRIBUTE_HEADER_SIZE {
            proof {
                assert(out@ + seq![] =~= out@);
            }
            break;
        }
        let type_code = read_u32(data, pos);
        if type_code == END_OF_ATTRIBUTES {
            proof {
                assert(out@ + seq![] =~= out@);
            }
            break;
        }
        let length = read_u32(data, pos + 4);
        if length == 0 {
            return Err(parse_error("MFT Attribute", "Attribute length is zero"));
        }
        let header = AttributeHeader {
            type_code,
            length,
            non_resident_flag: data[pos + 8],
            name_length: data[pos + 9],
            name_offset: read_u16(data, pos + 10),
            flags: read_u16(data, pos + 12),
            attribute_id: read_u16(data, pos + 14),
        };
        let ghost before = out@;
        let item = LocatedAttribute { offset: pos, header };
        out.push(item);
        proof {
            match chain_from(data@, pos + length) {
                ChainDecode::Attrs(rest) => {
                    assert(before + (seq![item] + rest) =~= out@ + rest);
                },
                ChainDecode::ZeroLength => {},
            }
        }
        if length as usize > len - pos {
            proof {
                assert(chain_from(data@, pos + length) == ChainDecode::Attrs(seq![]));
                assert(out@ + seq![] =~= out@);
            }
            pos = len;
            break;
        }
        pos = pos + length as usize;
    }
    Ok(out)
}

/// Decodes the attribute headers of a record in physical order, starting at
/// the header's first attribute offset.
pub fn parse_attributes(data: &[u8], header: &FileRecordHeader) -> (r: Result<
    Vec<AttributeHeader>,
    FactError,
>)
    ensures
        match chain_from(data@, header.attr_offset as int) {
            ChainDecode::Attrs(s) => r is Ok && r->Ok_0@ == s.map_values(
                |a: LocatedAttribute| a.header,
            ),
            ChainDecode::ZeroLength => r is Err && r->Err_0 is ParseError,
        },
{
    let located = parse_attribute_chain(data, header.attr_offset as usize)?;
    let mut out: Vec<AttributeHeader> = Vec::new();
    let mut i: usize = 0;
    while i < located.len()
        invariant
            i <= located@.len(),
            out@ == located@.subrange(0, i as int).map_values(|a: LocatedAttribute| a.header),
        decreases located@.len() - i,
    {
        out.push(located[i].header);
        i = i + 1;
        proof {
            assert(out@ =~= located@.subrange(0, i as int).map_values(|a: LocatedAttribute| a.header));
        }
    }
    proof {
        assert(located@.subrange(0, i as int) =~= located@);
    }
    Ok(out)
}

/// Decodes the non-resident header of an attribute; `data` starts at the
/// attribute's common header. Fails on fewer than 64 bytes.
pub fn parse_non_resident_header(data: &[u8]) -> (r: Result<NonResidentAttributeHeader, FactError>)
    ensures
        data@.len() >= 64 <==> r is Ok,
        r is Ok ==> r->Ok_0 == non_resident_header_at(data@),
        r is Err ==> r->Err_0 is ParseError,
{
    if data.len() < 64 {
        return Err(parse_error("Non-Resident Header", "Data too short"));
    }
    Ok(NonResidentAttributeHeader {
        starting_vcn: read_u64(data, 16),
        last_vcn: read_u64(data, 24),
        run_array_offset: read_u16(data, 32),
        compression_unit: read_u16(data, 34),
        allocated_size: read_u64(data, 40),
        real_size: read_u64(data, 48),
        initialized_size: read_u64(data, 56),
    })
}

} // verus!
