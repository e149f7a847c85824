use vstd::prelude::*;
use crate::error::{parse_error, unsupported, FactError};

verus! {

/// One contiguous extent: `length` clusters from logical cluster `start_lcn`.
#[derive(Debug, Clone, Copy, PartialEq, Eq)]
pub struct DataRun {
    pub start_lcn: u64,
    pub length: u64,
}

/// 256 to the power `n`.
pub open spec fn pow256(n: nat) -> nat
    decreases n,
{
    if n == 0 {
        1
    } else {
        256 * pow256((n - 1) as nat)
    }
}

/// The unsigned little-endian value of the `n` bytes at `at`.
pub open spec fn le_unsigned(b: Seq<u8>, at: int, n: nat) -> nat
    decreases n,
{
    if n == 0 {
        0
    } else {
        b[at] as nat + 256 * le_unsigned(b, at + 1, (n - 1) as nat)
    }
}

/// The two's-complement little-endian value of the `n` bytes at `at`
/// (`n >= 1`): negative when the top bit of the last byte is set.
pub open spec fn le_signed(b: Seq<u8>, at: int, n: nat) -> int {
    if n > 0 && b[at + n - 1] >= 128 {
        le_unsigned(b, at, n) - pow256(n)
    } else {
        le_unsigned(b, at, n) as int
    }
}

/// The outcome of decoding a runlist.
pub enum RunlistDecode {
    Runs(Seq<DataRun>),
    /// A run reads past the buffer, has a field wider than 8 bytes, a zero
    /// length, or a starting cluster outside `0..=u64::MAX`.
    Malformed,
    /// A run without an offset field: a sparse extent.
    Sparse,
}

/// Puts `run` in front of the runs of a successful decode.
pub open spec fn prepend(run: DataRun, d: RunlistDecode) -> RunlistDecode {
    match d {
        RunlistDecode::Runs(rs) => RunlistDecode::Runs(seq![run] + rs),
        other => other,
    }
}

/// Puts `runs` in front of the runs of a successful decode.
pub open spec fn prepend_all(runs: Seq<DataRun>, d: RunlistDecode) -> RunlistDecode {
    match d {
        RunlistDecode::Runs(rs) => RunlistDecode::Runs(runs + rs),
        other => other,
    }
}

/// Decodes the runs that start at `pos`, the previous run having started at
/// cluster `lcn`. Each run is a header byte `H`, then `H % 16` bytes of
/// length and `H / 16` bytes of signed offset relative to `lcn`; a zero
/// header byte or the end of the buffer ends the list.
pub open spec fn decode_from(b: Seq<u8>, pos: int, lcn: int) -> RunlistDecode
    decreases b.len() - pos,
{
    if pos < 0 || pos >= b.len() || b[pos] == 0 {
        RunlistDecode::Runs(seq![])
    } else {
        let l = (b[pos] % 16) as nat;
        let o = (b[pos] / 16) as nat;
        if pos + 1 + l + o > b.len() || l == 0 || l > 8 || o > 8 {
            RunlistDecode::Malformed
        } else if o == 0 {
            RunlistDecode::Sparse
        } else {
            let len = le_unsigned(b, pos + 1, l);
            let next = lcn + le_signed(b, pos + 1 + l, o);
            if len == 0 || next < 0 || next > u64::MAX {
                RunlistDecode::Malformed
            } else {
                prepend(
                    DataRun { start_lcn: next as u64, length: len as u64 },
                    decode_from(b, pos + 1 + l + o, next),
                )
            }
        }
    }
}

/// The runs a runlist encodes, the first offset being relative to cluster 0.
pub open spec fn decode_runlist(b: Seq<u8>) -> RunlistDecode {
    decode_from(b, 0, 0)
}

pub(crate) proof fn lemma_le_unsigned_bound(b: Seq<u8>, at: int, n: nat)
    ensures
        le_unsigned(b, at, n) < pow256(n),
    decreases n,
{
    if n > 0 {
        lemma_le_unsigned_bound(b, at + 1, (n - 1) as nat);
    }
}

/// Reads the unsigned little-endian value of `n` bytes at `at`.
fn read_le_unsigned(b: &[u8], at: usize, n: usize) -> (r: u64)
    requires
        at + n <= b@.len(),
        n <= 8,
    ensures
        r == le_unsigned(b@, at as int, n as nat),
{
    let total = b.len();
    let mut v: u64 = 0;
    let mut k: usize = n;
    while k > 0
        invariant
            total == b@.len(),
            k <= n <= 8,
            at + n <= b@.len(),
            v == le_unsigned(b@, at + k, (n - k) as nat),
        decreases k,
    {
        proof {
            lemma_le_unsigned_bound(b@, at + k, (n - k) as nat);
            assert(pow256((n - k) as nat) <= pow256(7)) by {
                lemma_pow256_monotone((n - k) as nat, 7);
            }
            assert(pow256(7) == 0x100_0000_0000_0000) by {
                reveal_with_fuel(pow256, 8);
            }
            assert(v < 0x100_0000_0000_0000);
        }
        k = k - 1;
        v = b[at + k] as u64 + 256 * v;
    }
    v
}

pub(crate) proof fn lemma_pow256_monotone(a: nat, b: nat)
    requires
        a <= b,
    ensures
        pow256(a) <= pow256(b),
    decreases b,
{
    if a < b {
        lemma_pow256_monotone(a, (b - 1) as nat);
    }
}

/// 256 to the power `n`, less one.
fn width_mask(n: usize) -> (r: u64)
    requires
        n <= 8,
    ensures
        r == pow256(n as nat) - 1,
{
    let mut r: u64 = 0;
    let mut k: usize = 0;
    while k < n
        invariant
            k <= n <= 8,
            r == pow256(k as nat) - 1,
        decreases n - k,
    {
        proof {
            lemma_pow256_monotone(k as nat, 7);
            reveal_with_fuel(pow256, 8);
        }
        r = r * 256 + 255;
        k = k + 1;
    }
    r
}

/// Decodes an NTFS runlist into absolute extents. Fails with `ParseError` on
/// a malformed run and with `UnsupportedFormat` on a sparse run.
pub fn parse_runlist(data: &[u8]) -> (r: Result<Vec<DataRun>, FactError>)
    ensures
        match decode_runlist(data@) {
            RunlistDecode::Runs(rs) => r is Ok && r->Ok_0@ == rs,
            RunlistDecode::Malformed => r is Err && r->Err_0 is ParseError,
            RunlistDecode::Sparse => r is Err && r->Err_0 is UnsupportedFormat,
        },
{
    let mut runs: Vec<DataRun> = Vec::new();
    let mut cursor: usize = 0;
    let mut lcn: u64 = 0;
    let len = data.len();
    while cursor < len
        invariant
            len == data@.len(),
            cursor <= len,
            decode_runlist(data@) == prepend_all(runs@, decode_from(data@, cursor as int, lcn as int)),
        ensures
            cursor >= len || data@[cursor as int] == 0,
            decode_runlist(data@) == prepend_all(runs@, decode_from(data@, cursor as int, lcn as int)),
        decreases len - cursor,
    {
        let header = data[cursor];
        if header == 0 {
            break;
        }
        let l = (header % 16) as usize;
        let o = (header / 16) as usize;
        if l == 0 || l > 8 || o > 8 || 1 + l + o > len - cursor {
            return Err(parse_error("Runlist", "run out of bounds or malformed"));
        }
        if o == 0 {
            return Err(unsupported("sparse run"));
        }
        let length = read_le_unsigned(data, cursor + 1, l);
        let raw = read_le_unsigned(data, cursor + 1 + l, o);
        let next: u64;
        if data[cursor + l + o] >= 128 {
            let mask = width_mask(o);
            proof {
                lemma_le_unsigned_bound(data@, cursor + 1 + l, o as nat);
            }
            // The offset is raw - (mask + 1), so the run starts at lcn - (mask - raw) - 1.
            let below = mask - raw;
            if below >= lcn {
                return Err(parse_error("Runlist", "run starts before cluster 0"));
            }
            next = lcn - below - 1;
        } else {
            if raw > u64::MAX - lcn {
                return Err(parse_error("Runlist", "run starts past the last cluster"));
            }
            next = lcn + raw;
        }
        if length == 0 {
            return Err(parse_error("Runlist", "zero-length run"));
        }
        let ghost prev = runs@;
        runs.push(DataRun { start_lcn: next, length });
        proof {
            assert(runs@ == prev + seq![DataRun { start_lcn: next, length }]);
            let rest = decode_from(data@, cursor + 1 + l + o, next as int);
            match rest {
                RunlistDecode::Runs(rs) => {
                    assert(prev + (seq![DataRun { start_lcn: next, length }] + rs) =~= runs@ + rs);
                },
                _ => {},
            }
        }
        cursor = cursor + 1 + l + o;
        lcn = next;
    }
    proof {
        assert(runs@ + seq![] =~= runs@);
    }
    Ok(runs)
}

} // verus!
