use vstd::prelude::*;
use crate::bytes::{le16, le64, read_u16, read_u64};
use crate::error::{parse_error, FactError};

verus! {

/// Size of the volume boot record.
pub const BOOT_SECTOR_SIZE: usize = 512;

/// The geometry fields of the NTFS volume boot record.
#[derive(Debug, Clone, Copy, PartialEq, Eq)]
pub struct BootSector {
    pub bytes_per_sector: u16,
    pub sectors_per_cluster: u8,
    pub media_descriptor: u8,
    pub total_sectors: u64,
    pub mft_lcn: u64,
    pub mft_mirr_lcn: u64,
}

/// Cluster sizes NTFS can use: a power of two from 512 bytes to 1 MiB.
pub open spec fn valid_cluster_size(n: int) -> bool {
    n == 512 || n == 1024 || n == 2048 || n == 4096 || n == 8192 || n == 16384 || n == 32768
        || n == 65536 || n == 131072 || n == 262144 || n == 524288 || n == 1048576
}

impl BootSector {
    pub open spec fn spec_cluster_size(&self) -> int {
        self.bytes_per_sector as int * self.sectors_per_cluster as int
    }

    pub open spec fn spec_mft_offset(&self) -> int {
        self.mft_lcn as int * self.spec_cluster_size()
    }

    /// A boot sector this library accepts: non-zero fields, a valid cluster
    /// size, and an $MFT byte offset that fits in 64 bits.
    pub open spec fn wf(&self) -> bool {
        &&& self.bytes_per_sector != 0
        &&& self.sectors_per_cluster != 0
        &&& self.mft_lcn != 0
        &&& valid_cluster_size(self.spec_cluster_size())
        &&& self.spec_mft_offset() <= u64::MAX
    }

    /// Bytes per cluster.
    pub fn cluster_size(&self) -> (r: u64)
        ensures
            r == self.spec_cluster_size(),
    {
        proof {
            vstd::arithmetic::mul::lemma_mul_upper_bound(
                self.bytes_per_sector as int, 0xffff, self.sectors_per_cluster as int, 0xff);
        }
        self.bytes_per_sector as u64 * self.sectors_per_cluster as u64
    }

    /// Byte offset of $MFT on the volume.
    pub fn mft_offset(&self) -> (r: u64)
        requires
            self.spec_mft_offset() <= u64::MAX,
        ensures
            r == self.spec_mft_offset(),
    {
        self.mft_lcn * self.cluster_size()
    }
}

/// The boot sector whose fields stand at their offsets in `b`.
pub open spec fn boot_sector_at(b: Seq<u8>) -> BootSector {
    BootSector {
        bytes_per_sector: le16(b, 0x0B) as u16,
        sectors_per_cluster: b[0x0D],
        media_descriptor: b[0x15],
        total_sectors: le64(b, 0x28) as u64,
        mft_lcn: le64(b, 0x30) as u64,
        mft_mirr_lcn: le64(b, 0x38) as u64,
    }
}

/// Decodes the volume boot record. Fails on fewer than 512 bytes or on a
/// geometry that `wf` does not accept.
pub fn parse_boot_sector(data: &[u8]) -> (r: Result<BootSector, FactError>)
    ensures
        data@.len() >= BOOT_SECTOR_SIZE && boot_sector_at(data@).wf() <==> r is Ok,
        r is Ok ==> r->Ok_0 == boot_sector_at(data@),
        r is Err ==> r->Err_0 is ParseError,
{
    if data.len() < BOOT_SECTOR_SIZE {
        return Err(parse_error("NTFS Boot Sector", "boot sector shorter than 512 bytes"));
    }
    let bs = BootSector {
        bytes_per_sector: read_u16(data, 0x0B),
        sectors_per_cluster: data[0x0D],
        media_descriptor: data[0x15],
        total_sectors: read_u64(data, 0x28),
        mft_lcn: read_u64(data, 0x30),
        mft_mirr_lcn: read_u64(data, 0x38),
    };
    if bs.bytes_per_sector == 0 || bs.sectors_per_cluster == 0 || bs.mft_lcn == 0 {
        return Err(parse_error("NTFS Boot Sector", "zero geometry field"));
    }
    let cs = bs.cluster_size();
    if !(cs == 512 || cs == 1024 || cs == 2048 || cs == 4096 || cs == 8192 || cs == 16384
        || cs == 32768 || cs == 65536 || cs == 131072 || cs == 262144 || cs == 524288
        || cs == 1048576) {
        return Err(parse_error("NTFS Boot Sector", "cluster size is not a power of two in range"));
    }
    if bs.mft_lcn > u64::MAX / cs {
        return Err(parse_error("NTFS Boot Sector", "MFT offset out of range"));
    }
    proof {
        vstd::arithmetic::div_mod::lemma_fundamental_div_mod(u64::MAX as int, cs as int);
        vstd::arithmetic::mul::lemma_mul_inequality(bs.mft_lcn as int, (u64::MAX / cs) as int, cs as int);
    }
    Ok(bs)
}

} // verus!
