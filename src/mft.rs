use vstd::prelude::*;
use crate::boot::{valid_cluster_size, BootSector};
use crate::error::{parse_error, FactError};
use crate::fixup::{apply_usa, fixed_up, usa_in_bounds};
use crate::record::{
    chain_from, file_record_header_at, has_file_signature, is_file_signature,
    non_resident_header_at, parse_attribute_chain, parse_file_record_header,
    parse_non_resident_header, ChainDecode, LocatedAttribute, NonResidentAttributeHeader,
};
use crate::runlist::{decode_runlist, parse_runlist, DataRun, RunlistDecode};

verus! {

/// Bytes per MFT file record.
pub const MFT_RECORD_SIZE: u64 = 1024;

/// Type code of $DATA.
pub const DATA_ATTRIBUTE: u32 = 0x80;

/// A range of bytes on the volume.
#[derive(Debug, Clone, Copy, PartialEq, Eq)]
pub struct Extent {
    pub offset: u64,
    pub length: u64,
}

/// Where $MFT lies on the volume: the cluster size and $MFT's own runlist,
/// taken from MFT entry 0.
#[derive(Debug)]
pub struct MftReader {
    cluster_size: u64,
    mft_runlist: Vec<DataRun>,
}

/// The logical cluster that holds virtual cluster `vcn` of a stream whose
/// runs are `runs`, the first of them starting at virtual cluster `base`.
pub open spec fn locate_vcn(runs: Seq<DataRun>, base: int, vcn: int) -> Option<int>
    decreases runs.len(),
{
    if runs.len() == 0 {
        None
    } else if base <= vcn < base + runs[0].length {
        Some(runs[0].start_lcn + (vcn - base))
    } else {
        locate_vcn(runs.drop_first(), base + runs[0].length, vcn)
    }
}

/// Byte offset on the volume of MFT record `index`, if the runlist covers it.
pub open spec fn record_location(runs: Seq<DataRun>, cluster_size: int, index: int) -> Option<int> {
    let v = index * 1024;
    match locate_vcn(runs, 0, v / cluster_size) {
        Some(lcn) => Some(lcn * cluster_size + v % cluster_size),
        None => None,
    }
}

/// The reads that fetch at most `remaining` bytes of the stream described
/// by `runs`: each run in turn, clipped to what is left.
pub open spec fn extent_plan(runs: Seq<DataRun>, cluster_size: int, remaining: int) -> Seq<(int, int)>
    decreases runs.len(),
{
    if runs.len() == 0 || remaining <= 0 {
        seq![]
    } else {
        let bytes = runs[0].length * cluster_size;
        let take = if bytes < remaining { bytes } else { remaining };
        seq![(runs[0].start_lcn * cluster_size, take)] + extent_plan(
            runs.drop_first(),
            cluster_size,
            remaining - take,
        )
    }
}

/// Every read of a plan starts at an offset that fits in 64 bits.
pub open spec fn plan_fits(plan: Seq<(int, int)>) -> bool {
    forall|k: int| 0 <= k < plan.len() ==> (#[trigger] plan[k]).0 <= u64::MAX
}

/// The bytes of the attribute at `a`, if they lie inside the record.
pub open spec fn attribute_bytes(rec: Seq<u8>, a: LocatedAttribute) -> Option<Seq<u8>> {
    if a.offset + a.header.length <= rec.len() {
        Some(rec.subrange(a.offset as int, a.offset + a.header.length))
    } else {
        None
    }
}

/// The runs of the non-resident attribute at `a`: `Malformed` when the
/// attribute or its non-resident header leave the record, or the runlist
/// offset is not below the attribute's length.
pub open spec fn attribute_runs(rec: Seq<u8>, a: LocatedAttribute) -> RunlistDecode {
    match attribute_bytes(rec, a) {
        None => RunlistDecode::Malformed,
        Some(attr) => if attr.len() < 64 {
            RunlistDecode::Malformed
        } else {
            let rao = non_resident_header_at(attr).run_array_offset as int;
            if rao >= attr.len() {
                RunlistDecode::Malformed
            } else {
                decode_runlist(attr.subrange(rao, attr.len() as int))
            }
        },
    }
}

/// The first non-resident $DATA attribute of a chain.
pub open spec fn first_nonresident_data(chain: Seq<LocatedAttribute>) -> Option<LocatedAttribute>
    decreases chain.len(),
{
    if chain.len() == 0 {
        None
    } else if chain[0].header.type_code == 0x80 && chain[0].header.non_resident_flag == 1 {
        Some(chain[0])
    } else {
        first_nonresident_data(chain.drop_first())
    }
}

/// The non-empty runlist of the first non-resident $DATA attribute in `chain`.
pub open spec fn mft_runs_of_chain(rec: Seq<u8>, chain: Seq<LocatedAttribute>) -> Option<Seq<DataRun>> {
    match first_nonresident_data(chain) {
        None => None,
        Some(a) => match attribute_runs(rec, a) {
            RunlistDecode::Runs(rs) => if rs.len() > 0 {
                Some(rs)
            } else {
                None
            },
            _ => None,
        },
    }
}

/// $MFT's runlist as MFT entry 0 gives it, after the fixup: `None` unless
/// the record is a "FILE" record whose attribute chain decodes and holds a
/// non-resident $DATA attribute with a non-empty runlist.
pub open spec fn mft_runs_of_entry(rec: Seq<u8>) -> Option<Seq<DataRun>> {
    if rec.len() < 48 {
        None
    } else {
        let h = file_record_header_at(rec);
        if !usa_in_bounds(rec.len() as int, h.usa_offset, h.usa_count) {
            None
        } else {
            let f = fixed_up(rec, h.usa_offset, h.usa_count);
            if !crate::fixup::all_sectors_match(rec, h.usa_offset, h.usa_count) || !is_file_signature(
                h.signature,
            ) {
                None
            } else {
                match chain_from(f, h.attr_offset as int) {
                    ChainDecode::ZeroLength => None,
                    ChainDecode::Attrs(s) => mft_runs_of_chain(f, s),
                }
            }
        }
    }
}

/// An MFT record after its fixup: `None` when it is shorter than its header,
/// its update sequence array leaves it, or a sector fails the check.
pub open spec fn record_fixup(b: Seq<u8>) -> Option<Seq<u8>> {
    if b.len() < 48 {
        None
    } else {
        let h = file_record_header_at(b);
        if usa_in_bounds(b.len() as int, h.usa_offset, h.usa_count)
            && crate::fixup::all_sectors_match(b, h.usa_offset, h.usa_count) {
            Some(fixed_up(b, h.usa_offset, h.usa_count))
        } else {
            None
        }
    }
}

/// Applies the fixup that a raw MFT record's own header describes.
pub fn fixup_record(raw: Vec<u8>) -> (r: Result<Vec<u8>, FactError>)
    ensures
        match record_fixup(raw@) {
            Some(f) => r is Ok && r->Ok_0@ == f,
            None => r is Err && r->Err_0 is ParseError,
        },
{
    let mut rec = raw;
    let header = parse_file_record_header(rec.as_slice())?;
    apply_usa(rec.as_mut_slice(), header.usa_offset, header.usa_count)?;
    Ok(rec)
}

/// Decodes the non-resident header and the runlist of the attribute at `a`.
pub fn read_attribute_runs(rec: &[u8], a: &LocatedAttribute) -> (r: Result<
    (NonResidentAttributeHeader, Vec<DataRun>),
    FactError,
>)
    ensures
        match attribute_runs(rec@, *a) {
            RunlistDecode::Runs(rs) => r is Ok && r->Ok_0.1@ == rs && r->Ok_0.0
                == non_resident_header_at(attribute_bytes(rec@, *a)->Some_0),
            RunlistDecode::Malformed => r is Err && r->Err_0 is ParseError,
            RunlistDecode::Sparse => r is Err && r->Err_0 is UnsupportedFormat,
        },
{
    let len = rec.len();
    if a.offset > len || a.header.length as usize > len - a.offset {
        return Err(parse_error("MFT Attribute", "attribute runs past the end of the record"));
    }
    let attr = vstd::slice::slice_subrange(rec, a.offset, a.offset + a.header.length as usize);
    let nr = parse_non_resident_header(attr)?;
    let rao = nr.run_array_offset as usize;
    if rao >= attr.len() {
        return Err(parse_error("Runlist", "runlist offset past the end of the attribute"));
    }
    let runs = parse_runlist(vstd::slice::slice_subrange(attr, rao, attr.len()))?;
    Ok((nr, runs))
}

/// Finds $MFT's runlist: the runs of the first non-resident $DATA attribute.
fn mft_runs_in_chain(rec: &[u8], chain: &Vec<LocatedAttribute>) -> (r: Result<Vec<DataRun>, FactError>)
    ensures
        match mft_runs_of_chain(rec@, chain@) {
            Some(rs) => r is Ok && r->Ok_0@ == rs,
            None => r is Err && (r->Err_0 is ParseError || r->Err_0 is UnsupportedFormat),
        },
{
    let ghost s = chain@;
    let mut i: usize = 0;
    proof {
        assert(s.subrange(0, s.len() as int) =~= s);
    }
    while i < chain.len()
        invariant
            i <= chain@.len(),
            chain@ == s,
            first_nonresident_data(s) == first_nonresident_data(s.subrange(i as int, s.len() as int)),
        decreases chain@.len() - i,
    {
        let a = chain[i];
        proof {
            assert(s.subrange(i as int, s.len() as int)[0] == a);
        }
        if a.header.type_code == DATA_ATTRIBUTE && a.header.non_resident_flag == 1 {
            assert(first_nonresident_data(s) == Some(a));
            let (_, runs) = read_attribute_runs(rec, &a)?;
            if runs.len() == 0 {
                return Err(parse_error("MFT", "entry 0 holds an empty $MFT runlist"));
            }
            return Ok(runs);
        }
        proof {
            assert(s.subrange(i + 1, s.len() as int) =~= s.subrange(i as int, s.len() as int).drop_first());
        }
        i = i + 1;
    }
    Err(parse_error("MFT", "entry 0 has no non-resident $DATA attribute"))
}

impl MftReader {
    #[verifier::type_invariant]
    spec fn inv(&self) -> bool {
        valid_cluster_size(self.cluster_size as int)
    }

    /// Bytes per cluster.
    pub closed spec fn cluster_bytes(&self) -> int {
        self.cluster_size as int
    }

    /// $MFT's runlist.
    pub closed spec fn runs(&self) -> Seq<DataRun> {
        self.mft_runlist@
    }

    pub fn cluster_size(&self) -> (r: u64)
        ensures
            r == self.cluster_bytes(),
            valid_cluster_size(r as int),
    {
        proof {
            use_type_invariant(self);
        }
        self.cluster_size
    }

    /// Builds the reader from the boot sector and the 1024 bytes of MFT
    /// entry 0 read at the boot sector's $MFT offset: applies the fixup,
    /// checks the "FILE" signature and keeps the runlist of the first
    /// non-resident $DATA attribute.
    pub fn bootstrap(boot: &BootSector, entry0: Vec<u8>) -> (r: Result<MftReader, FactError>)
        ensures
            r is Ok <==> valid_cluster_size(boot.spec_cluster_size()) && mft_runs_of_entry(
                entry0@,
            ) is Some,
            r is Ok ==> r->Ok_0.runs() == mft_runs_of_entry(entry0@)->Some_0
                && r->Ok_0.cluster_bytes() == boot.spec_cluster_size(),
            r is Err ==> r->Err_0 is ParseError || r->Err_0 is UnsupportedFormat,
    {
        let cluster_size = boot.cluster_size();
        if !(cluster_size == 512 || cluster_size == 1024 || cluster_size == 2048 || cluster_size
            == 4096 || cluster_size == 8192 || cluster_size == 16384 || cluster_size == 32768
            || cluster_size == 65536 || cluster_size == 131072 || cluster_size == 262144
            || cluster_size == 524288 || cluster_size == 1048576) {
            return Err(parse_error("NTFS Boot Sector", "cluster size is not a power of two in range"));
        }
        let ghost raw = entry0@;
        let mut rec = entry0;
        let header = parse_file_record_header(rec.as_slice())?;
        apply_usa(rec.as_mut_slice(), header.usa_offset, header.usa_count)?;
        if !has_file_signature(&header) {
            return Err(parse_error("MFT Record Header", "entry 0 does not carry the FILE signature"));
        }
        let chain = parse_attribute_chain(rec.as_slice(), header.attr_offset as usize)?;
        let ghost s = chain@;
        let ghost f = rec@;
        assert(mft_runs_of_entry(raw) == mft_runs_of_chain(f, s));
        let runs = mft_runs_in_chain(rec.as_slice(), &chain)?;
        Ok(MftReader { cluster_size, mft_runlist: runs })
    }

    /// Byte offset on the volume of MFT record `index`. Fails with
    /// `IndexOutOfRange` when $MFT's runlist does not cover the record.
    pub fn record_offset(&self, index: u64) -> (r: Result<u64, FactError>)
        ensures
            match record_location(self.runs(), self.cluster_bytes(), index as int) {
                None => r is Err && r->Err_0 == FactError::IndexOutOfRange(index),
                Some(p) => if p <= u64::MAX {
                    r == Ok::<u64, FactError>(p as u64)
                } else {
                    r is Err && r->Err_0 is ParseError
                },
            },
    {
        proof {
            use_type_invariant(self);
        }
        let cs = self.cluster_size as u128;
        let v = index as u128 * 1024;
        let vcn = v / cs;
        let within = v % cs;
        let mut current: u128 = 0;
        let mut i: usize = 0;
        let n = self.mft_runlist.len();
        let ghost runs = self.mft_runlist@;
        proof {
            assert(runs.subrange(0, n as int) =~= runs);
        }
        while i < n
            invariant
                0 < cs <= 1048576,
                cs == self.cluster_size,
                within == v % cs,
                vcn == v / cs,
                v == index * 1024,
                n == runs.len(),
                runs == self.mft_runlist@,
                i <= n,
                current <= u64::MAX as int * i,
                locate_vcn(runs, 0, vcn as int) == locate_vcn(
                    runs.subrange(i as int, n as int),
                    current as int,
                    vcn as int,
                ),
            decreases n - i,
        {
            let run = self.mft_runlist[i];
            proof {
                assert(runs.subrange(i + 1, n as int) =~= runs.subrange(i as int, n as int).drop_first());
                vstd::arithmetic::mul::lemma_mul_upper_bound(u64::MAX as int, u64::MAX as int, i as int, n as int);
            }
            if vcn >= current && vcn - current < run.length as u128 {
                let lcn = run.start_lcn as u128 + (vcn - current);
                proof {
                    assert(lcn <= 0x2_0000_0000_0000_0000int);
                    assert(within < cs) by {
                        vstd::arithmetic::div_mod::lemma_mod_bound(v as int, cs as int);
                    }
                    vstd::arithmetic::mul::lemma_mul_upper_bound(lcn as int, 0x2_0000_0000_0000_0000int, cs as int, 1048576int);
                }
                let p = lcn * cs + within;
                if p > u64::MAX as u128 {
                    return Err(parse_error("MFT", "record lies past the end of the volume"));
                }
                return Ok(p as u64);
            }
            current = current + run.length as u128;
            i = i + 1;
        }
        Err(FactError::IndexOutOfRange(index))
    }

    /// The reads that fetch the stream described by `runs`, at most
    /// `max_size` bytes of it: each run from its first cluster, clipped to
    /// what is left of `max_size`. Fails when a run starts past the largest
    /// 64-bit offset.
    pub fn extents(&self, runs: &[DataRun], max_size: u64) -> (r: Result<Vec<Extent>, FactError>)
        ensures
            plan_fits(extent_plan(runs@, self.cluster_bytes(), max_size as int)) <==> r is Ok,
            r is Ok ==> r->Ok_0@.map_values(|e: Extent| (e.offset as int, e.length as int))
                == extent_plan(runs@, self.cluster_bytes(), max_size as int),
            r is Err ==> r->Err_0 is ParseError,
    {
        proof {
            use_type_invariant(self);
        }
        let cs = self.cluster_size as u128;
        let mut out: Vec<Extent> = Vec::new();
        let mut remaining: u64 = max_size;
        let mut i: usize = 0;
        let ghost whole = extent_plan(runs@, cs as int, max_size as int);
        proof {
            assert(runs@.subrange(0, runs@.len() as int) =~= runs@);
            assert(out@.map_values(|e: Extent| (e.offset as int, e.length as int)) + whole =~= whole);
        }
        while i < runs.len()
            invariant
                i <= runs@.len(),
                cs == self.cluster_bytes(),
                0 < cs <= 1048576,
                whole == extent_plan(runs@, cs as int, max_size as int),
                whole == out@.map_values(|e: Extent| (e.offset as int, e.length as int)) + extent_plan(
                    runs@.subrange(i as int, runs@.len() as int),
                    cs as int,
                    remaining as int,
                ),
                forall|k: int| 0 <= k < out@.len() ==> (#[trigger] out@[k]).offset <= u64::MAX,
            ensures
                whole == out@.map_values(|e: Extent| (e.offset as int, e.length as int)),
                forall|k: int| 0 <= k < out@.len() ==> (#[trigger] out@[k]).offset <= u64::MAX,
            decreases runs@.len() - i,
        {
            let ghost rest = runs@.subrange(i as int, runs@.len() as int);
            proof {
                assert(runs@.subrange(i + 1, runs@.len() as int) =~= rest.drop_first());
            }
            if remaining == 0 {
                proof {
                    let m = out@.map_values(|e: Extent| (e.offset as int, e.length as int));
                    assert(m + seq![] =~= m);
                }
                break;
            }
            let run = runs[i];
            proof {
                vstd::arithmetic::mul::lemma_mul_upper_bound(run.start_lcn as int, u64::MAX as int, cs as int, 1048576);
                vstd::arithmetic::mul::lemma_mul_upper_bound(run.length as int, u64::MAX as int, cs as int, 1048576);
            }
            let offset = run.start_lcn as u128 * cs;
            let bytes = run.length as u128 * cs;
            if offset > u64::MAX as u128 {
                proof {
                    let m = out@.map_values(|e: Extent| (e.offset as int, e.length as int));
                    let k = m.len() as int;
                    assert(whole[k] == extent_plan(rest, cs as int, remaining as int)[0]);
                    assert(whole[k].0 > u64::MAX);
                }
                return Err(parse_error("Runlist", "run starts past the end of the volume"));
            }
            let take: u64 = if bytes < remaining as u128 { bytes as u64 } else { remaining };
            let ghost before = out@.map_values(|e: Extent| (e.offset as int, e.length as int));
            out.push(Extent { offset: offset as u64, length: take });
            proof {
                let after = out@.map_values(|e: Extent| (e.offset as int, e.length as int));
                assert(after =~= before + seq![(offset as int, take as int)]);
                let tail = extent_plan(rest.drop_first(), cs as int, remaining - take);
                assert(before + (seq![(offset as int, take as int)] + tail) =~= after + tail);
            }
            remaining = remaining - take;
            i = i + 1;
        }
        proof {
            let m = out@.map_values(|e: Extent| (e.offset as int, e.length as int));
            assert forall|k: int| 0 <= k < whole.len() implies #[trigger] whole[k].0 <= u64::MAX by {
                assert(whole[k] == (out@[k].offset as int, out@[k].length as int));
            }
        }
        Ok(out)
    }
}

} // verus!
