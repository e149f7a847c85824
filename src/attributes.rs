use vstd::prelude::*;
use crate::bytes::{le32, le64, read_u32, read_u64};
use crate::error::{parse_error, FactError};
use crate::index::utf16_units;
use crate::names::{decode_utf16, utf16_lossy};

verus! {

/// Seconds from 1601-01-01 (the FILETIME epoch) to 1970-01-01.
pub const EPOCH_DIFFERENCE: u64 = 11_644_473_600;

/// FILETIME ticks (100 ns) per second.
pub const TICKS_PER_SECOND: u64 = 10_000_000;

/// The largest Unix time in seconds that a 64-bit FILETIME can denote.
pub const MAX_FILETIME_UNIX_SECONDS: i64 = 1_833_029_933_770;

/// $STANDARD_INFORMATION (type 0x10).
#[derive(Debug, Clone, Copy, PartialEq, Eq)]
pub struct StandardInformation {
    pub creation_time: u64,
    pub modification_time: u64,
    pub mft_modified_time: u64,
    pub access_time: u64,
    pub file_flags: u32,
    pub max_versions: u32,
    pub version_number: u32,
    pub class_id: u32,
}

/// $FILE_NAME (type 0x30).
#[derive(Debug, Clone)]
pub struct FileNameAttribute {
    pub parent_directory: u64,
    pub creation_time: u64,
    pub modification_time: u64,
    pub mft_modified_time: u64,
    pub access_time: u64,
    pub allocated_size: u64,
    pub real_size: u64,
    pub flags: u32,
    /// Length of the name in UTF-16 code units.
    pub name_length: u8,
    pub namespace: u8,
    pub name: String,
}

/// A point in time as seconds and nanoseconds since 1970-01-01 UTC.
#[derive(Debug, Clone, Copy, PartialEq, Eq)]
pub struct UnixTime {
    pub seconds: i64,
    pub nanoseconds: u32,
}

/// The Unix time of a FILETIME; times before 1970 give the epoch itself.
pub open spec fn filetime_unix(filetime: u64) -> UnixTime {
    let seconds = filetime / 10_000_000;
    if seconds >= 11_644_473_600 {
        UnixTime {
            seconds: (seconds - 11_644_473_600) as i64,
            nanoseconds: ((filetime % 10_000_000) * 100) as u32,
        }
    } else {
        UnixTime { seconds: 0, nanoseconds: 0 }
    }
}

impl StandardInformation {
    /// Converts a FILETIME (100 ns ticks since 1601-01-01) to Unix time,
    /// clamping times before the Unix epoch to the epoch.
    pub fn to_unix_time(filetime: u64) -> (r: UnixTime)
        ensures
            r == filetime_unix(filetime),
            0 <= r.seconds <= MAX_FILETIME_UNIX_SECONDS,
            r.nanoseconds < 1_000_000_000,
    {
        let seconds = filetime / TICKS_PER_SECOND;
        if seconds >= EPOCH_DIFFERENCE {
            let nanos = (filetime % TICKS_PER_SECOND) * 100;
            UnixTime { seconds: (seconds - EPOCH_DIFFERENCE) as i64, nanoseconds: nanos as u32 }
        } else {
            UnixTime { seconds: 0, nanoseconds: 0 }
        }
    }
}

pub open spec fn standard_information_at(b: Seq<u8>) -> StandardInformation {
    StandardInformation {
        creation_time: le64(b, 0) as u64,
        modification_time: le64(b, 8) as u64,
        mft_modified_time: le64(b, 16) as u64,
        access_time: le64(b, 24) as u64,
        file_flags: le32(b, 32) as u32,
        max_versions: le32(b, 36) as u32,
        version_number: le32(b, 40) as u32,
        class_id: le32(b, 44) as u32,
    }
}

/// Decodes a $STANDARD_INFORMATION body. Fails on fewer than 48 bytes.
pub fn parse_standard_information(data: &[u8]) -> (r: Result<StandardInformation, FactError>)
    ensures
        data@.len() >= 48 <==> r is Ok,
        r is Ok ==> r->Ok_0 == standard_information_at(data@),
        r is Err ==> r->Err_0 is ParseError,
{
    if data.len() < 48 {
        return Err(parse_error("Standard Information", "body shorter than 48 bytes"));
    }
    Ok(StandardInformation {
        creation_time: read_u64(data, 0),
        modification_time: read_u64(data, 8),
        mft_modified_time: read_u64(data, 16),
        access_time: read_u64(data, 24),
        file_flags: read_u32(data, 32),
        max_versions: read_u32(data, 36),
        version_number: read_u32(data, 40),
        class_id: read_u32(data, 44),
    })
}

/// Decodes a $FILE_NAME body. Fails when the fixed fields (66 bytes) or the
/// name they announce do not fit in `data`.
pub fn parse_file_name(data: &[u8]) -> (r: Result<FileNameAttribute, FactError>)
    ensures
        data@.len() >= 66 && 66 + 2 * data@[64] <= data@.len() <==> r is Ok,
        r is Ok ==> {
            let a = r->Ok_0;
            &&& a.parent_directory == le64(data@, 0)
            &&& a.creation_time == le64(data@, 8)
            &&& a.modification_time == le64(data@, 16)
            &&& a.mft_modified_time == le64(data@, 24)
            &&& a.access_time == le64(data@, 32)
            &&& a.allocated_size == le64(data@, 40)
            &&& a.real_size == le64(data@, 48)
            &&& a.flags == le32(data@, 56)
            &&& a.name_length == data@[64]
            &&& a.namespace == data@[65]
            &&& a.name@ == utf16_lossy(utf16_units(data@, 66, data@[64] as int))
        },
        r is Err ==> r->Err_0 is ParseError,
{
    if data.len() < 66 {
        return Err(parse_error("FileName", "body shorter than 66 bytes"));
    }
    let name_length = data[64];
    if data.len() - 66 < 2 * (name_length as usize) {
        return Err(parse_error("FileName String", "name runs past the end of the body"));
    }
    let units = crate::index::read_utf16_units(data, 66, name_length as usize);
    Ok(FileNameAttribute {
        parent_directory: read_u64(data, 0),
        creation_time: read_u64(data, 8),
        modification_time: read_u64(data, 16),
        mft_modified_time: read_u64(data, 24),
        access_time: read_u64(data, 32),
        allocated_size: read_u64(data, 40),
        real_size: read_u64(data, 48),
        flags: read_u32(data, 56),
        name_length,
        namespace: data[65],
        name: decode_utf16(&units),
    })
}

} // verus!
