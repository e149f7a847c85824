use vstd::prelude::*;
use crate::bytes::{le16, le32, read_u16, read_u32};
use crate::error::{parse_error, FactError};
use crate::index::{
    entries_from, index_block_entries, index_root_at, parse_index_entries, parse_index_record,
    parse_index_root, IndexEntry, IndexEntryView,
};
use crate::mft::{attribute_bytes, attribute_runs, read_attribute_runs};
use crate::names::{ascii_fold, eq_ignore_ascii_case, names_match};
use crate::record::{
    chain_from, file_record_header_at, parse_attribute_chain, parse_file_record_header,
    ChainDecode, LocatedAttribute,
};
use crate::runlist::{DataRun, RunlistDecode};

verus! {

/// Type code of $INDEX_ROOT.
pub const INDEX_ROOT_ATTRIBUTE: u32 = 0x90;

/// Type code of $INDEX_ALLOCATION.
pub const INDEX_ALLOCATION_ATTRIBUTE: u32 = 0xA0;

/// Bytes per INDX block.
pub const INDEX_BLOCK_SIZE: usize = 4096;

/// Inode of the root directory.
pub const ROOT_DIRECTORY_INODE: u64 = 5;

/// Most bytes of a directory's $INDEX_ALLOCATION stream that are read.
pub const DIRECTORY_STREAM_LIMIT: u64 = 20 * 1024 * 1024;

/// The body of the resident attribute at `a`: `content_length` bytes from
/// `content_offset`, clamped to the record.
pub open spec fn resident_body(rec: Seq<u8>, a: LocatedAttribute) -> Seq<u8> {
    let off = a.offset as int;
    if off + 24 > rec.len() {
        seq![]
    } else {
        let start = off + le16(rec, off + 20);
        let end = start + le32(rec, off + 16);
        let s = if start < rec.len() { start } else { rec.len() as int };
        let e = if end < rec.len() { end } else { rec.len() as int };
        rec.subrange(s, e)
    }
}

/// Reads the body of a resident attribute.
pub fn resident_content(rec: &[u8], a: &LocatedAttribute) -> (r: Vec<u8>)
    ensures
        r@ == resident_body(rec@, *a),
{
    let len = rec.len();
    let off = a.offset;
    if off > len || len - off < 24 {
        return Vec::new();
    }
    let content_length = read_u32(rec, off + 16) as u128;
    let content_offset = read_u16(rec, off + 20) as u128;
    let start = off as u128 + content_offset;
    let end = start + content_length;
    let s: usize = if start < len as u128 { start as usize } else { len };
    let e: usize = if end < len as u128 { end as usize } else { len };
    vstd::slice::slice_to_vec(vstd::slice::slice_subrange(rec, s, e))
}

/// The entries of the $INDEX_ROOT attribute at `a`: none when its body is
/// too short or its first entry lies outside the body.
pub open spec fn root_entries(rec: Seq<u8>, a: LocatedAttribute) -> Seq<IndexEntryView> {
    let body = resident_body(rec, a);
    if body.len() < 32 {
        seq![]
    } else {
        let start = 16 + index_root_at(body).header.first_entry_offset;
        if start < body.len() {
            entries_from(body.subrange(start, body.len() as int), 0)
        } else {
            seq![]
        }
    }
}

/// Where a directory's entries come from.
#[derive(Debug)]
pub enum IndexSource {
    /// Entries already decoded from $INDEX_ROOT.
    Entries(Vec<IndexEntry>),
    /// The runlist of an $INDEX_ALLOCATION stream still to be read.
    Allocation(Vec<DataRun>),
}

pub enum IndexSourceView {
    Entries(Seq<IndexEntryView>),
    Allocation(Seq<DataRun>),
}

impl View for IndexSource {
    type V = IndexSourceView;

    open spec fn view(&self) -> IndexSourceView {
        match self {
            IndexSource::Entries(es) => IndexSourceView::Entries(es@.map_values(|e: IndexEntry| e@)),
            IndexSource::Allocation(rs) => IndexSourceView::Allocation(rs@),
        }
    }
}

/// The index sources of the attributes in `chain`, in physical order;
/// `None` when an $INDEX_ROOT runs past the record or the runlist of a
/// non-resident $INDEX_ALLOCATION fails to decode.
pub open spec fn sources_of(rec: Seq<u8>, chain: Seq<LocatedAttribute>) -> Option<Seq<IndexSourceView>>
    decreases chain.len(),
{
    if chain.len() == 0 {
        Some(seq![])
    } else {
        let a = chain[0];
        let rest = sources_of(rec, chain.drop_first());
        if a.header.type_code == 0x90 {
            match (attribute_bytes(rec, a), rest) {
                (Some(_), Some(r)) => Some(seq![IndexSourceView::Entries(root_entries(rec, a))] + r),
                _ => None,
            }
        } else if a.header.type_code == 0xA0 && a.header.non_resident_flag == 1 {
            match attribute_runs(rec, a) {
                RunlistDecode::Runs(rs) => match rest {
                    Some(r) => Some(seq![IndexSourceView::Allocation(rs)] + r),
                    None => None,
                },
                _ => None,
            }
        } else {
            rest
        }
    }
}

/// The index sources of a directory's (fixed-up) MFT record.
pub open spec fn directory_sources_of(rec: Seq<u8>) -> Option<Seq<IndexSourceView>> {
    if rec.len() < 48 {
        None
    } else {
        match chain_from(rec, file_record_header_at(rec).attr_offset as int) {
            ChainDecode::ZeroLength => None,
            ChainDecode::Attrs(s) => sources_of(rec, s),
        }
    }
}

/// Decodes the entries of an $INDEX_ROOT attribute.
fn index_root_entries(rec: &[u8], a: &LocatedAttribute) -> (r: Vec<IndexEntry>)
    ensures
        r@.map_values(|e: IndexEntry| e@) == root_entries(rec@, *a),
{
    let body = resident_content(rec, a);
    match parse_index_root(body.as_slice()) {
        Ok(root) => {
            let start = 16 + root.header.first_entry_offset as u64;
            if start < body.len() as u64 {
                let area = vstd::slice::slice_subrange(body.as_slice(), start as usize, body.len());
                match parse_index_entries(area) {
                    Ok(es) => es,
                    Err(_) => Vec::new(),
                }
            } else {
                proof {
                    assert(Seq::<IndexEntry>::empty().map_values(|e: IndexEntry| e@) =~= seq![]);
                }
                Vec::new()
            }
        },
        Err(_) => {
            proof {
                assert(Seq::<IndexEntry>::empty().map_values(|e: IndexEntry| e@) =~= seq![]);
            }
            Vec::new()
        },
    }
}

/// Lists where the entries of a directory come from, given its MFT record
/// after the fixup: the entries of each $INDEX_ROOT and the runlist of each
/// non-resident $INDEX_ALLOCATION, in the order of the attributes.
pub fn directory_sources(record: &[u8]) -> (r: Result<Vec<IndexSource>, FactError>)
    ensures
        match directory_sources_of(record@) {
            Some(v) => r is Ok && r->Ok_0@.map_values(|s: IndexSource| s@) == v,
            None => r is Err && (r->Err_0 is ParseError || r->Err_0 is UnsupportedFormat),
        },
{
    let header = parse_file_record_header(record)?;
    let chain = parse_attribute_chain(record, header.attr_offset as usize)?;
    let ghost s = chain@;
    let mut out: Vec<IndexSource> = Vec::new();
    let mut i: usize = 0;
    proof {
        assert(s.subrange(0, s.len() as int) =~= s);
    }
    while i < chain.len()
        invariant
            i <= s.len(),
            chain@ == s,
            directory_sources_of(record@) == sources_of(record@, s),
            sources_of(record@, s) == match sources_of(record@, s.subrange(i as int, s.len() as int)) {
                Some(r) => Some(out@.map_values(|x: IndexSource| x@) + r),
                None => None::<Seq<IndexSourceView>>,
            },
        decreases s.len() - i,
    {
        let a = chain[i];
        let ghost rest = s.subrange(i as int, s.len() as int);
        let ghost before = out@.map_values(|x: IndexSource| x@);
        proof {
            assert(rest[0] == a);
            assert(s.subrange(i + 1, s.len() as int) =~= rest.drop_first());
        }
        if a.header.type_code == INDEX_ROOT_ATTRIBUTE {
            if a.offset > record.len() || a.header.length as usize > record.len() - a.offset {
                return Err(parse_error("Index Root", "attribute runs past the end of the record"));
            }
            let es = index_root_entries(record, &a);
            let item = IndexSource::Entries(es);
            let ghost iv = item@;
            out.push(item);
            proof {
                let after = out@.map_values(|x: IndexSource| x@);
                assert(after =~= before + seq![iv]);
                match sources_of(record@, rest.drop_first()) {
                    Some(r) => {
                        assert(before + (seq![iv] + r) =~= after + r);
                    },
                    None => {},
                }
            }
        } else if a.header.type_code == INDEX_ALLOCATION_ATTRIBUTE && a.header.non_resident_flag == 1 {
            let (_, runs) = read_attribute_runs(record, &a)?;
            let item = IndexSource::Allocation(runs);
            let ghost iv = item@;
            out.push(item);
            proof {
                let after = out@.map_values(|x: IndexSource| x@);
                assert(after =~= before + seq![iv]);
                match sources_of(record@, rest.drop_first()) {
                    Some(r) => {
                        assert(before + (seq![iv] + r) =~= after + r);
                    },
                    None => {},
                }
            }
        }
        i = i + 1;
    }
    proof {
        let m = out@.map_values(|x: IndexSource| x@);
        assert(m + seq![] =~= m);
    }
    Ok(out)
}

/// The entries of the INDX blocks of an $INDEX_ALLOCATION stream, block
/// `k` onwards; a block that fails to decode contributes nothing, and a
/// partial block at the end is ignored.
pub open spec fn allocation_entries_from(s: Seq<u8>, k: int) -> Seq<IndexEntryView>
    decreases s.len() - 4096 * k,
{
    if k < 0 || 4096 * (k + 1) > s.len() {
        seq![]
    } else {
        let here = match index_block_entries(s.subrange(4096 * k, 4096 * (k + 1))) {
            Some(e) => e,
            None => seq![],
        };
        here + allocation_entries_from(s, k + 1)
    }
}

/// Decodes the entries of every INDX block of an $INDEX_ALLOCATION stream.
pub fn index_allocation_entries(stream: &[u8]) -> (r: Vec<IndexEntry>)
    ensures
        r@.map_values(|e: IndexEntry| e@) == allocation_entries_from(stream@, 0),
{
    let len = stream.len();
    let mut out: Vec<IndexEntry> = Vec::new();
    let mut k: usize = 0;
    proof {
        assert(out@.map_values(|e: IndexEntry| e@) + allocation_entries_from(stream@, 0)
            =~= allocation_entries_from(stream@, 0));
    }
    while INDEX_BLOCK_SIZE <= len - k * INDEX_BLOCK_SIZE
        invariant
            len == stream@.len(),
            k * 4096 <= len,
            allocation_entries_from(stream@, 0) == out@.map_values(|e: IndexEntry| e@)
                + allocation_entries_from(stream@, k as int),
        decreases len - k * 4096,
    {
        let block = vstd::slice::slice_subrange(stream, k * INDEX_BLOCK_SIZE, (k + 1) * INDEX_BLOCK_SIZE);
        let ghost before = out@.map_values(|e: IndexEntry| e@);
        match parse_index_record(block) {
            Ok(parsed) => {
                let mut parsed = parsed;
                let ghost pv = parsed@.map_values(|e: IndexEntry| e@);
                out.append(&mut parsed);
                proof {
                    assert(out@.map_values(|e: IndexEntry| e@) =~= before + pv);
                    assert(before + pv + allocation_entries_from(stream@, k + 1) =~= before + (pv
                        + allocation_entries_from(stream@, k + 1)));
                }
            },
            Err(_) => {
                proof {
                    assert(seq![] + allocation_entries_from(stream@, k + 1) =~= allocation_entries_from(
                        stream@,
                        k + 1,
                    ));
                }
            },
        }
        k = k + 1;
    }
    proof {
        let m = out@.map_values(|e: IndexEntry| e@);
        assert(m + seq![] =~= m);
    }
    out
}

/// The reference of the first entry whose name matches `name` under ASCII
/// case folding.
pub open spec fn first_match(es: Seq<IndexEntryView>, name: Seq<char>) -> Option<u64>
    decreases es.len(),
{
    if es.len() == 0 {
        None
    } else if eq_ignore_ascii_case(es[0].filename, name) {
        Some(es[0].file_reference)
    } else {
        first_match(es.drop_first(), name)
    }
}

/// Looking a name up among a directory's entries ignores ASCII case: two
/// names equal under ASCII case folding find the same child.
pub proof fn lemma_lookup_ignores_ascii_case(es: Seq<IndexEntryView>, a: Seq<char>, b: Seq<char>)
    requires
        eq_ignore_ascii_case(a, b),
    ensures
        first_match(es, a) == first_match(es, b),
    decreases es.len(),
{
    if es.len() > 0 {
        let n = es[0].filename;
        if eq_ignore_ascii_case(n, a) {
            assert forall|i: int| 0 <= i < n.len() implies #[trigger] ascii_fold(n[i]) == ascii_fold(b[i]) by {
                assert(ascii_fold(n[i]) == ascii_fold(a[i]));
                assert(ascii_fold(a[i]) == ascii_fold(b[i]));
            }
        }
        if eq_ignore_ascii_case(n, b) {
            assert forall|i: int| 0 <= i < n.len() implies #[trigger] ascii_fold(n[i]) == ascii_fold(a[i]) by {
                assert(ascii_fold(n[i]) == ascii_fold(b[i]));
                assert(ascii_fold(a[i]) == ascii_fold(b[i]));
            }
        }
        lemma_lookup_ignores_ascii_case(es.drop_first(), a, b);
    }
}

/// Finds the child named `name` (ASCII case-insensitive) among a directory's
/// entries and returns its MFT index.
pub fn find_child(entries: &[IndexEntry], name: &str) -> (r: Option<u64>)
    ensures
        r == first_match(entries@.map_values(|e: IndexEntry| e@), name@),
{
    let ghost es = entries@.map_values(|e: IndexEntry| e@);
    let mut i: usize = 0;
    proof {
        assert(es.subrange(0, es.len() as int) =~= es);
    }
    while i < entries.len()
        invariant
            i <= entries@.len(),
            es == entries@.map_values(|e: IndexEntry| e@),
            first_match(es, name@) == first_match(es.subrange(i as int, es.len() as int), name@),
        decreases entries@.len() - i,
    {
        proof {
            assert(es.subrange(i as int, es.len() as int)[0] == entries@[i as int]@);
            assert(es.subrange(i + 1, es.len() as int) =~= es.subrange(i as int, es.len() as int).drop_first());
        }
        if names_match(entries[i].filename.as_str(), name) {
            return Some(entries[i].file_reference);
        }
        i = i + 1;
    }
    None
}

/// The components of a `\`-separated path, empty ones dropped; `cur` is the
/// component read so far.
pub open spec fn path_parts_from(s: Seq<char>, i: int, cur: Seq<char>) -> Seq<Seq<char>>
    decreases s.len() - i,
{
    let done: Seq<Seq<char>> = if cur.len() > 0 { seq![cur] } else { seq![] };
    if i < 0 || i >= s.len() {
        done
    } else if s[i] == '\\' {
        done + path_parts_from(s, i + 1, seq![])
    } else {
        path_parts_from(s, i + 1, cur.push(s[i]))
    }
}

/// The components of a `\`-separated path, empty ones dropped.
pub open spec fn path_parts(s: Seq<char>) -> Seq<Seq<char>> {
    path_parts_from(s, 0, seq![])
}

/// Component-wise equality under ASCII case folding.
pub open spec fn parts_match(p: Seq<Seq<char>>, q: Seq<Seq<char>>) -> bool {
    p.len() == q.len() && forall|i: int| 0 <= i < p.len() ==> #[trigger] eq_ignore_ascii_case(p[i], q[i])
}

proof fn lemma_fold_backslash(c: char)
    ensures
        ascii_fold(c) == ascii_fold('\\') <==> c == '\\',
{
}

proof fn lemma_parts_from_ignore_ascii_case(p: Seq<char>, q: Seq<char>, i: int, cp: Seq<char>, cq: Seq<char>)
    requires
        eq_ignore_ascii_case(p, q),
        eq_ignore_ascii_case(cp, cq),
        0 <= i,
    ensures
        parts_match(path_parts_from(p, i, cp), path_parts_from(q, i, cq)),
    decreases p.len() - i,
{
    let dp: Seq<Seq<char>> = if cp.len() > 0 { seq![cp] } else { seq![] };
    let dq: Seq<Seq<char>> = if cq.len() > 0 { seq![cq] } else { seq![] };
    assert(parts_match(dp, dq));
    if i >= p.len() {
    } else {
        assert(ascii_fold(p[i]) == ascii_fold(q[i]));
        lemma_fold_backslash(p[i]);
        lemma_fold_backslash(q[i]);
        if p[i] == '\\' {
            lemma_parts_from_ignore_ascii_case(p, q, i + 1, seq![], seq![]);
            let rp = path_parts_from(p, i + 1, seq![]);
            let rq = path_parts_from(q, i + 1, seq![]);
            assert forall|k: int| 0 <= k < (dp + rp).len() implies #[trigger] eq_ignore_ascii_case(
                (dp + rp)[k],
                (dq + rq)[k],
            ) by {
                if k < dp.len() {
                    assert(eq_ignore_ascii_case(dp[k], dq[k]));
                } else {
                    assert(eq_ignore_ascii_case(rp[k - dp.len()], rq[k - dq.len()]));
                }
            }
        } else {
            let np = cp.push(p[i]);
            let nq = cq.push(q[i]);
            assert forall|k: int| 0 <= k < np.len() implies #[trigger] ascii_fold(np[k]) == ascii_fold(nq[k]) by {
                if k < cp.len() {
                    assert(ascii_fold(cp[k]) == ascii_fold(cq[k]));
                }
            }
            lemma_parts_from_ignore_ascii_case(p, q, i + 1, np, nq);
        }
    }
}

/// Splitting ignores ASCII case: two paths equal under ASCII case folding
/// have components that are pairwise equal under ASCII case folding, so
/// each step of their resolution looks up the same child.
pub proof fn lemma_path_parts_ignore_ascii_case(p: Seq<char>, q: Seq<char>)
    requires
        eq_ignore_ascii_case(p, q),
    ensures
        parts_match(path_parts(p), path_parts(q)),
{
    lemma_parts_from_ignore_ascii_case(p, q, 0, seq![], seq![]);
}

/// Splits a path on `\`, dropping empty components.
pub fn path_components(path: &str) -> (r: Vec<String>)
    ensures
        r@.map_values(|c: String| c@) == path_parts(path@),
{
    let n = path.unicode_len();
    let mut out: Vec<String> = Vec::new();
    let mut start: usize = 0;
    let mut i: usize = 0;
    proof {
        assert(path@.subrange(0, 0) =~= Seq::<char>::empty());
        assert(out@.map_values(|c: String| c@) + path_parts(path@) =~= path_parts(path@));
    }
    while i < n
        invariant
            n == path@.len(),
            start <= i <= n,
            path_parts(path@) == out@.map_values(|c: String| c@) + path_parts_from(
                path@,
                i as int,
                path@.subrange(start as int, i as int),
            ),
        decreases n - i,
    {
        let ghost before = out@.map_values(|c: String| c@);
        let ghost cur = path@.subrange(start as int, i as int);
        if path.get_char(i) == '\\' {
            if i > start {
                let part = path.substring_char(start, i).to_string();
                out.push(part);
                proof {
                    assert(out@.map_values(|c: String| c@) =~= before + seq![cur]);
                    let rest = path_parts_from(path@, i + 1, seq![]);
                    assert(before + (seq![cur] + rest) =~= out@.map_values(|c: String| c@) + rest);
                }
            } else {
                proof {
                    assert(cur =~= Seq::<char>::empty());
                    let rest = path_parts_from(path@, i + 1, seq![]);
                    assert(Seq::<Seq<char>>::empty() + rest =~= rest);
                }
            }
            start = i + 1;
            proof {
                assert(path@.subrange(start as int, start as int) =~= Seq::<char>::empty());
            }
        } else {
            proof {
                assert(cur.push(path@[i as int]) =~= path@.subrange(start as int, i + 1));
            }
        }
        i = i + 1;
    }
    if n > start {
        let ghost before = out@.map_values(|c: String| c@);
        let part = path.substring_char(start, n).to_string();
        out.push(part);
        proof {
            assert(out@.map_values(|c: String| c@) =~= before + seq![path@.subrange(start as int, n as int)]);
        }
    } else {
        proof {
            let m = out@.map_values(|c: String| c@);
            assert(m + seq![] =~= m);
        }
    }
    out
}

} // verus!
