use vstd::prelude::*;
use crate::directory::{resident_body, resident_content};
use crate::error::{unsupported, FactError};
use crate::mft::{attribute_bytes, attribute_runs, read_attribute_runs, DATA_ATTRIBUTE};
use crate::record::{
    chain_from, file_record_header_at, non_resident_header_at, parse_attribute_chain,
    parse_file_record_header, ChainDecode, LocatedAttribute,
};
use crate::runlist::{DataRun, RunlistDecode};

verus! {

/// Type code of $ATTRIBUTE_LIST.
pub const ATTRIBUTE_LIST_ATTRIBUTE: u32 = 0x20;

/// Most bytes of an artifact's non-resident data that are read.
pub const ARTIFACT_SIZE_LIMIT: u64 = 100 * 1024 * 1024;

/// The artifacts this library can extract.
#[derive(Debug, Clone, Copy, PartialEq, Eq)]
pub enum ArtifactTarget {
    MFT,
    MFTMirr,
    LogFile,
    Volume,
    AttrDef,
    RootDirectory,
    Bitmap,
    Boot,
    BadClus,
    Secure,
    UpCase,
    Extend,
    /// Windows\System32\config\SAM
    RegistrySAM,
    /// Windows\System32\config\SYSTEM
    RegistrySYSTEM,
    /// Windows\System32\config\SECURITY
    RegistrySECURITY,
    /// Windows\System32\config\SOFTWARE
    RegistrySOFTWARE,
}

/// How an artifact is found: by a fixed MFT index or by a path.
#[derive(Debug, Clone, Copy, PartialEq, Eq)]
pub enum TargetType {
    Index,
    Path,
}

/// The fixed MFT index of a system file.
pub open spec fn fixed_index(t: ArtifactTarget) -> Option<u64> {
    match t {
        ArtifactTarget::MFT => Some(0),
        ArtifactTarget::MFTMirr => Some(1),
        ArtifactTarget::LogFile => Some(2),
        ArtifactTarget::Volume => Some(3),
        ArtifactTarget::AttrDef => Some(4),
        ArtifactTarget::RootDirectory => Some(5),
        ArtifactTarget::Bitmap => Some(6),
        ArtifactTarget::Boot => Some(7),
        ArtifactTarget::BadClus => Some(8),
        ArtifactTarget::Secure => Some(9),
        ArtifactTarget::UpCase => Some(10),
        ArtifactTarget::Extend => Some(11),
        _ => None,
    }
}

/// The path of a registry hive, from the root directory.
pub open spec fn fixed_path(t: ArtifactTarget) -> Option<Seq<char>> {
    match t {
        ArtifactTarget::RegistrySAM => Some("Windows\\System32\\config\\SAM"@),
        ArtifactTarget::RegistrySYSTEM => Some("Windows\\System32\\config\\SYSTEM"@),
        ArtifactTarget::RegistrySECURITY => Some("Windows\\System32\\config\\SECURITY"@),
        ArtifactTarget::RegistrySOFTWARE => Some("Windows\\System32\\config\\SOFTWARE"@),
        _ => None,
    }
}

impl ArtifactTarget {
    /// Whether the artifact has a fixed MFT index or is found by path.
    pub fn get_type(&self) -> (r: TargetType)
        ensures
            r == (if fixed_index(*self) is Some { TargetType::Index } else { TargetType::Path }),
    {
        match self {
            ArtifactTarget::MFT | ArtifactTarget::MFTMirr | ArtifactTarget::LogFile
            | ArtifactTarget::Volume | ArtifactTarget::AttrDef | ArtifactTarget::RootDirectory
            | ArtifactTarget::Bitmap | ArtifactTarget::Boot | ArtifactTarget::BadClus
            | ArtifactTarget::Secure | ArtifactTarget::UpCase | ArtifactTarget::Extend => TargetType::Index,
            _ => TargetType::Path,
        }
    }

    /// The fixed MFT index, for a system file.
    pub fn get_index(&self) -> (r: Option<u64>)
        ensures
            r == fixed_index(*self),
    {
        match self {
            ArtifactTarget::MFT => Some(0),
            ArtifactTarget::MFTMirr => Some(1),
            ArtifactTarget::LogFile => Some(2),
            ArtifactTarget::Volume => Some(3),
            ArtifactTarget::AttrDef => Some(4),
            ArtifactTarget::RootDirectory => Some(5),
            ArtifactTarget::Bitmap => Some(6),
            ArtifactTarget::Boot => Some(7),
            ArtifactTarget::BadClus => Some(8),
            ArtifactTarget::Secure => Some(9),
            ArtifactTarget::UpCase => Some(10),
            ArtifactTarget::Extend => Some(11),
            _ => None,
        }
    }

    /// The path from the root directory, for a registry hive.
    pub fn get_path(&self) -> (r: Option<&'static str>)
        ensures
            r is Some <==> fixed_path(*self) is Some,
            r is Some ==> r->Some_0@ == fixed_path(*self)->Some_0,
    {
        match self {
            ArtifactTarget::RegistrySAM => Some("Windows\\System32\\config\\SAM"),
            ArtifactTarget::RegistrySYSTEM => Some("Windows\\System32\\config\\SYSTEM"),
            ArtifactTarget::RegistrySECURITY => Some("Windows\\System32\\config\\SECURITY"),
            ArtifactTarget::RegistrySOFTWARE => Some("Windows\\System32\\config\\SOFTWARE"),
            _ => None,
        }
    }
}

/// Where a file's $DATA lies.
#[derive(Debug)]
pub enum DataSource {
    /// The bytes, stored inside the MFT record.
    Resident(Vec<u8>),
    /// The runlist, and how many bytes of it to read.
    NonResident { runs: Vec<DataRun>, size: u64 },
    /// The file has no $DATA attribute.
    Absent,
}

pub enum DataSourceView {
    Resident(Seq<u8>),
    NonResident(Seq<DataRun>, u64),
    Absent,
    /// The record or the attribute is malformed.
    Malformed,
    /// Compressed, encrypted or sparse data, or an attribute list.
    Unsupported,
}

impl View for DataSource {
    type V = DataSourceView;

    open spec fn view(&self) -> DataSourceView {
        match self {
            DataSource::Resident(b) => DataSourceView::Resident(b@),
            DataSource::NonResident { runs, size } => DataSourceView::NonResident(runs@, *size),
            DataSource::Absent => DataSourceView::Absent,
        }
    }
}

/// Compressed (0x0001) or encrypted (0x4000) attribute flags.
pub open spec fn is_compressed_or_encrypted(flags: u16) -> bool {
    flags % 2 == 1 || (flags / 0x4000) % 2 == 1
}

/// The data of the first $DATA attribute in `chain`; an $ATTRIBUTE_LIST met
/// before it is unsupported.
pub open spec fn data_of_chain(rec: Seq<u8>, chain: Seq<LocatedAttribute>) -> DataSourceView
    decreases chain.len(),
{
    if chain.len() == 0 {
        DataSourceView::Absent
    } else {
        let a = chain[0];
        if a.header.type_code == 0x20 {
            DataSourceView::Unsupported
        } else if a.header.type_code == 0x80 {
            if is_compressed_or_encrypted(a.header.flags) {
                DataSourceView::Unsupported
            } else if a.header.non_resident_flag == 0 {
                DataSourceView::Resident(resident_body(rec, a))
            } else {
                match attribute_runs(rec, a) {
                    RunlistDecode::Runs(rs) => {
                        let total: u64 = non_resident_header_at(attribute_bytes(rec, a)->Some_0).real_size;
                        DataSourceView::NonResident(
                            rs,
                            if total < ARTIFACT_SIZE_LIMIT { total } else { ARTIFACT_SIZE_LIMIT },
                        )
                    },
                    RunlistDecode::Malformed => DataSourceView::Malformed,
                    RunlistDecode::Sparse => DataSourceView::Unsupported,
                }
            }
        } else {
            data_of_chain(rec, chain.drop_first())
        }
    }
}

/// The data of a (fixed-up) MFT record.
pub open spec fn data_of_record(rec: Seq<u8>) -> DataSourceView {
    if rec.len() < 48 {
        DataSourceView::Malformed
    } else {
        match chain_from(rec, file_record_header_at(rec).attr_offset as int) {
            ChainDecode::ZeroLength => DataSourceView::Malformed,
            ChainDecode::Attrs(s) => data_of_chain(rec, s),
        }
    }
}

/// Locates the $DATA of a file from its MFT record after the fixup: the
/// resident bytes, or the runlist and `min(real_size, 100 MiB)`.
pub fn data_source(record: &[u8]) -> (r: Result<DataSource, FactError>)
    ensures
        match data_of_record(record@) {
            DataSourceView::Malformed => r is Err && r->Err_0 is ParseError,
            DataSourceView::Unsupported => r is Err && r->Err_0 is UnsupportedFormat,
            v => r is Ok && r->Ok_0@ == v,
        },
{
    let header = parse_file_record_header(record)?;
    let chain = parse_attribute_chain(record, header.attr_offset as usize)?;
    let ghost s = chain@;
    let mut i: usize = 0;
    proof {
        assert(s.subrange(0, s.len() as int) =~= s);
    }
    while i < chain.len()
        invariant
            i <= s.len(),
            chain@ == s,
            data_of_record(record@) == data_of_chain(record@, s),
            data_of_chain(record@, s) == data_of_chain(record@, s.subrange(i as int, s.len() as int)),
        decreases s.len() - i,
    {
        let a = chain[i];
        proof {
            assert(s.subrange(i as int, s.len() as int)[0] == a);
            assert(s.subrange(i + 1, s.len() as int) =~= s.subrange(i as int, s.len() as int).drop_first());
        }
        if a.header.type_code == ATTRIBUTE_LIST_ATTRIBUTE {
            return Err(unsupported("attribute list"));
        }
        if a.header.type_code == DATA_ATTRIBUTE {
            if a.header.flags % 2 == 1 || (a.header.flags / 0x4000) % 2 == 1 {
                return Err(unsupported("compressed or encrypted data"));
            }
            if a.header.non_resident_flag == 0 {
                return Ok(DataSource::Resident(resident_content(record, &a)));
            }
            let (nr, runs) = read_attribute_runs(record, &a)?;
            let size = if nr.real_size < ARTIFACT_SIZE_LIMIT { nr.real_size } else { ARTIFACT_SIZE_LIMIT };
            return Ok(DataSource::NonResident { runs, size });
        }
        i = i + 1;
    }
    Ok(DataSource::Absent)
}

} // verus!
