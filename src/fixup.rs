use vstd::prelude::*;
use crate::error::{parse_error, FactError};

verus! {

/// Bytes per sector covered by one update sequence entry.
pub const SECTOR_SIZE: usize = 512;

/// Number of sectors an update sequence array of `usa_count` words protects
/// (the first word is the update sequence number itself).
pub open spec fn sector_count(usa_count: u16) -> int {
    if usa_count == 0 {
        0
    } else {
        usa_count - 1
    }
}

/// Offset of the trailing word of sector `i`.
pub open spec fn sector_tail(i: int) -> int {
    (i + 1) * 512 - 2
}

/// The update sequence array holds at least the update sequence number, and
/// it and every sector it covers lie inside a buffer of `len` bytes.
pub open spec fn usa_in_bounds(len: int, usa_offset: u16, usa_count: u16) -> bool {
    usa_count >= 1 && usa_offset + 2 * usa_count <= len && (usa_count - 1) * 512 <= len
}

/// The trailing word of sector `i` equals the update sequence number.
pub open spec fn sector_matches(b: Seq<u8>, usa_offset: u16, i: int) -> bool {
    &&& b[sector_tail(i)] == b[usa_offset as int]
    &&& b[sector_tail(i) + 1] == b[usa_offset + 1]
}

/// `cur` with the trailing word of sector `i` replaced by the word saved for
/// it in the update sequence array of `b`, if that sector carried the update
/// sequence number in `b`.
pub open spec fn restore_sector(cur: Seq<u8>, b: Seq<u8>, usa_offset: u16, i: int) -> Seq<u8> {
    if sector_matches(b, usa_offset, i) {
        cur.update(sector_tail(i), b[usa_offset + 2 + 2 * i]).update(
            sector_tail(i) + 1,
            b[usa_offset + 3 + 2 * i],
        )
    } else {
        cur
    }
}

/// `b` after restoring the first `n` sectors.
pub open spec fn restored_upto(b: Seq<u8>, usa_offset: u16, n: int) -> Seq<u8>
    decreases n,
{
    if n <= 0 {
        b
    } else {
        restore_sector(restored_upto(b, usa_offset, n - 1), b, usa_offset, n - 1)
    }
}

/// `b` after the update sequence fixup: every covered sector whose trailing
/// word carries the update sequence number gets its saved word back.
pub open spec fn fixed_up(b: Seq<u8>, usa_offset: u16, usa_count: u16) -> Seq<u8> {
    restored_upto(b, usa_offset, sector_count(usa_count))
}

/// Every covered sector carries the update sequence number.
pub open spec fn all_sectors_match(b: Seq<u8>, usa_offset: u16, usa_count: u16) -> bool {
    forall|i: int| 0 <= i < sector_count(usa_count) ==> #[trigger] sector_matches(b, usa_offset, i)
}

proof fn lemma_restored_len(b: Seq<u8>, usa_offset: u16, n: int)
    requires
        0 <= n,
        forall|k: int| 0 <= k < n ==> sector_tail(k) + 1 < b.len() && usa_offset + 3 + 2 * k < b.len(),
    ensures
        restored_upto(b, usa_offset, n).len() == b.len(),
    decreases n,
{
    if n > 0 {
        lemma_restored_len(b, usa_offset, n - 1);
    }
}

proof fn lemma_restored_keeps_tail(b: Seq<u8>, usa_offset: u16, i: int, n: int)
    requires
        0 <= i < n,
        sector_matches(b, usa_offset, i),
        forall|k: int| 0 <= k < n ==> sector_tail(k) + 1 < b.len() && usa_offset + 3 + 2 * k < b.len(),
    ensures
        restored_upto(b, usa_offset, n)[sector_tail(i)] == b[usa_offset + 2 + 2 * i],
        restored_upto(b, usa_offset, n)[sector_tail(i) + 1] == b[usa_offset + 3 + 2 * i],
    decreases n,
{
    lemma_restored_len(b, usa_offset, n - 1);
    if n - 1 > i {
        lemma_restored_keeps_tail(b, usa_offset, i, n - 1);
    }
}

/// Fixup correctness: once the fixup has run, the trailing word of every
/// covered sector that carried the update sequence number equals the word
/// saved for it in the update sequence array.
pub proof fn lemma_fixup_restores_sector(b: Seq<u8>, usa_offset: u16, usa_count: u16, i: int)
    requires
        usa_in_bounds(b.len() as int, usa_offset, usa_count),
        0 <= i < sector_count(usa_count),
        sector_matches(b, usa_offset, i),
    ensures
        fixed_up(b, usa_offset, usa_count)[sector_tail(i)] == b[usa_offset + 2 + 2 * i],
        fixed_up(b, usa_offset, usa_count)[sector_tail(i) + 1] == b[usa_offset + 3 + 2 * i],
{
    lemma_restored_keeps_tail(b, usa_offset, i, sector_count(usa_count));
}

/// Applies the update sequence fixup in place. A sector whose trailing word
/// differs from the update sequence number is left as it is and the call
/// reports `ParseError("fixup mismatch")`; the other sectors are restored.
pub fn apply_usa(data: &mut [u8], usa_offset: u16, usa_count: u16) -> (r: Result<(), FactError>)
    ensures
        !usa_in_bounds(old(data)@.len() as int, usa_offset, usa_count) ==> {
            &&& r is Err
            &&& r->Err_0 is ParseError
            &&& final(data)@ == old(data)@
        },
        usa_in_bounds(old(data)@.len() as int, usa_offset, usa_count) ==> {
            &&& final(data)@ == fixed_up(old(data)@, usa_offset, usa_count)
            &&& (r is Ok <==> all_sectors_match(old(data)@, usa_offset, usa_count))
            &&& r is Err ==> r->Err_0 is ParseError && r->Err_0->details@ == "fixup mismatch"@
        },
{
    let len = data.len();
    if usa_count == 0 {
        return Err(parse_error("Update Sequence Array", "update sequence array holds no sequence number"));
    }
    let start = usa_offset as usize;
    let count = usa_count as usize;
    if start + 2 * count > len || (count - 1) * SECTOR_SIZE > len {
        return Err(parse_error("Update Sequence Array", "update sequence array out of bounds"));
    }
    let ghost orig = data@;
    let usn0 = data[start];
    let usn1 = data[start + 1];
    let mut saved: Vec<u8> = Vec::new();
    let mut j: usize = 0;
    while j < 2 * count
        invariant
            j <= 2 * count,
            start + 2 * count <= len,
            orig.len() == len,
            data@ == orig,
            saved@ == orig.subrange(start as int, start + j),
        decreases 2 * count - j,
    {
        saved.push(data[start + j]);
        j = j + 1;
        proof {
            assert(saved@ =~= orig.subrange(start as int, start + j));
        }
    }
    let sectors = count - 1;
    let mut all_match = true;
    let mut i: usize = 0;
    while i < sectors
        invariant
            i <= sectors,
            sectors == count - 1,
            count == usa_count,
            start == usa_offset,
            orig.len() == len,
            data@.len() == len,
            start + 2 * count <= len,
            sectors * 512 <= len,
            usn0 == orig[start as int],
            usn1 == orig[start + 1],
            saved@ == orig.subrange(start as int, start + 2 * count),
            data@ == restored_upto(orig, usa_offset, i as int),
            all_match <==> forall|k: int| 0 <= k < i ==> #[trigger] sector_matches(orig, usa_offset, k),
            forall|p: int| 0 <= p < len && p >= (i + 1) * 512 - 2 ==> data@[p] == orig[p],
        decreases sectors - i,
    {
        let tail = (i + 1) * SECTOR_SIZE - 2;
        assert(data@[tail as int] == orig[tail as int] && data@[tail + 1] == orig[tail + 1]);
        let ghost matched = data@[tail as int] == usn0 && data@[tail + 1] == usn1;
        assert(matched == sector_matches(orig, usa_offset, i as int));
        if data[tail] == usn0 && data[tail + 1] == usn1 {
            data[tail] = saved[2 + 2 * i];
            data[tail + 1] = saved[3 + 2 * i];
        } else {
            all_match = false;
        }
        i = i + 1;
    }
    if all_match {
        Ok(())
    } else {
        Err(parse_error("Update Sequence Array", "fixup mismatch"))
    }
}

} // verus!
