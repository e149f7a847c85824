use vstd::prelude::*;
use vstd::arithmetic::div_mod::{
    lemma_div_denominator, lemma_div_multiples_vanish, lemma_fundamental_div_mod,
    lemma_hoist_over_denominator, lemma_mod_multiples_vanish, lemma_multiply_divide_lt, lemma_small_mod,
};
use vstd::arithmetic::mul::{lemma_mul_inequality, lemma_mul_is_associative};
use crate::runlist::{
    decode_from, decode_runlist, le_signed, le_unsigned, lemma_le_unsigned_bound, lemma_pow256_monotone,
    pow256, DataRun, RunlistDecode,
};

verus! {

/// The fewest bytes, from `n` up to 8, that hold `v` unsigned.
pub open spec fn unsigned_width_from(v: int, n: nat) -> nat
    decreases 8 - n,
{
    if n >= 8 || v < pow256(n) {
        n
    } else {
        unsigned_width_from(v, n + 1)
    }
}

/// The fewest bytes (at least one) that hold `v` unsigned.
pub open spec fn unsigned_width(v: int) -> nat {
    unsigned_width_from(v, 1)
}

/// `v` fits in `n >= 1` bytes of two's complement.
pub open spec fn fits_signed(v: int, n: nat) -> bool {
    n >= 1 && -128 * pow256((n - 1) as nat) <= v < 128 * pow256((n - 1) as nat)
}

/// The fewest bytes, from `n` up to 8, that hold `v` in two's complement.
pub open spec fn signed_width_from(v: int, n: nat) -> nat
    decreases 8 - n,
{
    if n >= 8 || fits_signed(v, n) {
        n
    } else {
        signed_width_from(v, n + 1)
    }
}

/// The fewest bytes (at least one) that hold `v` in two's complement.
pub open spec fn signed_width(v: int) -> nat {
    signed_width_from(v, 1)
}

/// The `n` low bytes of `v` in two's complement, least significant first.
pub open spec fn le_bytes(v: int, n: nat) -> Seq<u8>
    decreases n,
{
    if n == 0 {
        seq![]
    } else {
        seq![(v % 256) as u8] + le_bytes(v / 256, (n - 1) as nat)
    }
}

/// The runlist that encodes `runs` with the fewest length and offset bytes,
/// each offset relative to the start of the run before (`prev` for the first).
pub open spec fn encode_runs(runs: Seq<DataRun>, prev: int) -> Seq<u8>
    decreases runs.len(),
{
    if runs.len() == 0 {
        seq![0u8]
    } else {
        let r = runs[0];
        let d = r.start_lcn - prev;
        let l = unsigned_width(r.length as int);
        let o = signed_width(d);
        seq![(16 * o + l) as u8] + le_bytes(r.length as int, l) + le_bytes(d, o) + encode_runs(
            runs.drop_first(),
            r.start_lcn as int,
        )
    }
}

/// Every run has a length and starts within a signed 64-bit offset of the
/// run before.
pub open spec fn encodable(runs: Seq<DataRun>, prev: int) -> bool
    decreases runs.len(),
{
    runs.len() == 0 || (runs[0].length >= 1 && fits_signed(runs[0].start_lcn - prev, 8) && encodable(
        runs.drop_first(),
        runs[0].start_lcn as int,
    ))
}

proof fn lemma_pow256_facts(n: nat)
    ensures
        pow256(n) > 0,
        n >= 1 ==> pow256(n) == 256 * pow256((n - 1) as nat),
    decreases n,
{
    if n > 0 {
        lemma_pow256_facts((n - 1) as nat);
    }
}

proof fn lemma_unsigned_width(v: int, n: nat)
    requires
        1 <= n <= 8,
        0 <= v < pow256(8),
    ensures
        n <= unsigned_width_from(v, n) <= 8,
        v < pow256(unsigned_width_from(v, n)),
    decreases 8 - n,
{
    if n < 8 && v >= pow256(n) {
        lemma_unsigned_width(v, n + 1);
    }
}

proof fn lemma_signed_width(v: int, n: nat)
    requires
        1 <= n <= 8,
        fits_signed(v, 8),
    ensures
        n <= signed_width_from(v, n) <= 8,
        fits_signed(v, signed_width_from(v, n)),
    decreases 8 - n,
{
    if n < 8 && !fits_signed(v, n) {
        lemma_signed_width(v, n + 1);
    }
}

proof fn lemma_bytes_len(v: int, n: nat)
    ensures
        le_bytes(v, n).len() == n,
    decreases n,
{
    if n > 0 {
        lemma_bytes_len(v / 256, (n - 1) as nat);
    }
}

proof fn lemma_unsigned_of_bytes(s: Seq<u8>, at: int, v: int, n: nat)
    requires
        0 <= at,
        at + n <= s.len(),
        0 <= v < pow256(n),
        forall|k: int| 0 <= k < n ==> s[at + k] == #[trigger] le_bytes(v, n)[k],
    ensures
        le_unsigned(s, at, n) == v,
    decreases n,
{
    if n > 0 {
        lemma_pow256_facts(n);
        let p: int = pow256((n - 1) as nat) as int;
        lemma_fundamental_div_mod(v, 256);
        lemma_bytes_len(v / 256, (n - 1) as nat);
        assert(0 <= v / 256 < p);
        assert forall|k: int| 0 <= k < n - 1 implies s[at + 1 + k] == #[trigger] le_bytes(
            v / 256,
            (n - 1) as nat,
        )[k] by {
            assert(le_bytes(v, n)[k + 1] == le_bytes(v / 256, (n - 1) as nat)[k]);
            assert(s[at + (k + 1)] == le_bytes(v, n)[k + 1]);
        }
        lemma_unsigned_of_bytes(s, at + 1, v / 256, (n - 1) as nat);
        assert(s[at] == le_bytes(v, n)[0]);
    }
}

proof fn lemma_bytes_modular(v: int, n: nat)
    ensures
        le_bytes(v + pow256(n), n) == le_bytes(v, n),
    decreases n,
{
    if n > 0 {
        lemma_pow256_facts(n);
        let p: int = pow256((n - 1) as nat) as int;
        lemma_mod_multiples_vanish(p, v, 256);
        lemma_hoist_over_denominator(v, p, 256);
        assert(v + pow256(n) == 256 * p + v);
        assert((v + pow256(n)) / 256 == v / 256 + p);
        lemma_bytes_modular(v / 256, (n - 1) as nat);
    }
}

proof fn lemma_top_byte(u: int, n: nat)
    requires
        n >= 1,
        0 <= u,
    ensures
        le_bytes(u, n)[n - 1] as int == (u / (pow256((n - 1) as nat) as int)) % 256,
    decreases n,
{
    if n == 1 {
        assert(u / 1 == u);
    } else {
        lemma_pow256_facts((n - 1) as nat);
        lemma_pow256_facts((n - 2) as nat);
        lemma_top_byte(u / 256, (n - 1) as nat);
        lemma_bytes_len(u / 256, (n - 1) as nat);
        lemma_div_denominator(u, 256, pow256((n - 2) as nat) as int);
        assert(le_bytes(u, n)[n - 1] == le_bytes(u / 256, (n - 1) as nat)[n - 2]);
    }
}

proof fn lemma_signed_of_bytes(s: Seq<u8>, at: int, d: int, n: nat)
    requires
        0 <= at,
        at + n <= s.len(),
        fits_signed(d, n),
        forall|k: int| 0 <= k < n ==> s[at + k] == #[trigger] le_bytes(d, n)[k],
    ensures
        le_signed(s, at, n) == d,
{
    lemma_pow256_facts(n);
    let p: int = pow256((n - 1) as nat) as int;
    let full: int = pow256(n) as int;
    let u: int = if d >= 0 { d } else { d + full };
    if d < 0 {
        lemma_bytes_modular(d, n);
    }
    assert(le_bytes(u, n) == le_bytes(d, n));
    lemma_unsigned_of_bytes(s, at, u, n);
    lemma_top_byte(u, n);
    assert(s[at + (n - 1)] == le_bytes(d, n)[n - 1]);
    if d >= 0 {
        lemma_multiply_divide_lt(u, p, 128);
        assert(u / p >= 0) by {
            vstd::arithmetic::div_mod::lemma_div_pos_is_pos(u, p);
        }
        lemma_small_mod((u / p) as nat, 256);
    } else {
        lemma_multiply_divide_lt(u, p, 256);
        vstd::arithmetic::div_mod::lemma_div_is_ordered(128 * p, u, p);
        lemma_div_multiples_vanish(128, p);
        assert(p * 128 == 128 * p);
        lemma_small_mod((u / p) as nat, 256);
    }
}

proof fn lemma_unsigned_shift(p: Seq<u8>, s: Seq<u8>, at: int, n: nat)
    requires
        0 <= at,
        at + n <= s.len(),
    ensures
        le_unsigned(p + s, p.len() + at, n) == le_unsigned(s, at, n),
    decreases n,
{
    if n > 0 {
        lemma_unsigned_shift(p, s, at + 1, (n - 1) as nat);
        assert((p + s)[p.len() + at] == s[at]);
    }
}

proof fn lemma_decode_shift(p: Seq<u8>, s: Seq<u8>, i: int, lcn: int)
    requires
        0 <= i,
    ensures
        decode_from(p + s, p.len() + i, lcn) == decode_from(s, i, lcn),
    decreases s.len() - i,
{
    let b = p + s;
    let pos = p.len() + i;
    if i < s.len() {
        assert(b[pos] == s[i]);
        if s[i] != 0 {
            let l = (s[i] % 16) as nat;
            let o = (s[i] / 16) as nat;
            if i + 1 + l + o <= s.len() && 1 <= l <= 8 && 1 <= o <= 8 {
                lemma_unsigned_shift(p, s, i + 1, l);
                lemma_unsigned_shift(p, s, i + 1 + l, o);
                assert(b[pos + 1 + l + o - 1] == s[i + 1 + l + o - 1]);
                let next = lcn + le_signed(s, i + 1 + l, o);
                lemma_decode_shift(p, s, i + 1 + l + o, next);
            }
        }
    }
}

proof fn lemma_unsigned_top_split(b: Seq<u8>, at: int, n: nat)
    requires
        n >= 1,
    ensures
        le_unsigned(b, at, n) == le_unsigned(b, at, (n - 1) as nat) + pow256((n - 1) as nat) * b[at
            + n - 1],
    decreases n,
{
    let t: int = b[at + n - 1] as int;
    if n == 1 {
        assert(le_unsigned(b, at + 1, 0) == 0);
        assert(pow256(0) == 1);
        assert(le_unsigned(b, at, 1) == b[at]);
        assert(le_unsigned(b, at, 0) == 0);
        assert(pow256(0) * t == t);
    } else {
        let m: nat = (n - 1) as nat;
        let k: nat = (n - 2) as nat;
        lemma_unsigned_top_split(b, at + 1, m);
        lemma_pow256_facts(m);
        let p: int = pow256(k) as int;
        assert(at + 1 + m - 1 == at + n - 1);
        assert(le_unsigned(b, at + 1, m) == le_unsigned(b, at + 1, k) + p * t);
        assert(le_unsigned(b, at, n) == b[at] + 256 * le_unsigned(b, at + 1, m));
        assert(le_unsigned(b, at, m) == b[at] + 256 * le_unsigned(b, at + 1, k));
        lemma_mul_is_associative(256, p, t);
        assert(pow256(m) == 256 * p);
        assert(pow256(m) * t == 256 * (p * t));
        assert(le_unsigned(b, at, n) == le_unsigned(b, at, m) + pow256(m) * t);
    }
}

proof fn lemma_signed_fits(b: Seq<u8>, at: int, n: nat)
    requires
        1 <= n <= 8,
    ensures
        fits_signed(le_signed(b, at, n), 8),
{
    lemma_unsigned_top_split(b, at, n);
    lemma_le_unsigned_bound(b, at, (n - 1) as nat);
    lemma_pow256_facts(n);
    lemma_pow256_monotone((n - 1) as nat, 7);
    let p: int = pow256((n - 1) as nat) as int;
    let t: int = b[at + n - 1] as int;
    let u: int = le_unsigned(b, at, n) as int;
    let q: int = pow256(7) as int;
    assert(u == le_unsigned(b, at, (n - 1) as nat) + p * t);
    vstd::arithmetic::mul::lemma_mul_is_commutative(p, t);
    let d = le_signed(b, at, n);
    assert(pow256(n) == 256 * p);
    assert(((8 - 1) as nat) == 7);
    lemma_mul_inequality(p, q, 128);
    assert(0 <= le_unsigned(b, at, (n - 1) as nat) < p);
    if t >= 128 {
        lemma_mul_inequality(128, t, p);
        lemma_mul_inequality(t, 255, p);
        assert(d == u - 256 * p);
        assert(d >= -128 * p);
        assert(d < 0);
    } else {
        lemma_mul_inequality(t, 127, p);
        assert(d == u);
        assert(u < 128 * p);
        assert(d >= 0);
    }
    assert(-128 * q <= d < 128 * q);
}

proof fn lemma_decoded_runs_encodable(b: Seq<u8>, pos: int, lcn: int)
    requires
        decode_from(b, pos, lcn) is Runs,
    ensures
        encodable(decode_from(b, pos, lcn)->Runs_0, lcn),
    decreases b.len() - pos,
{
    if pos < 0 || pos >= b.len() || b[pos] == 0 {
    } else {
        let l = (b[pos] % 16) as nat;
        let o = (b[pos] / 16) as nat;
        let len = le_unsigned(b, pos + 1, l);
        lemma_le_unsigned_bound(b, pos + 1, l);
        lemma_pow256_monotone(l, 8);
        assert(pow256(8) == 0x1_0000_0000_0000_0000) by {
            reveal_with_fuel(pow256, 9);
        }
        let next = lcn + le_signed(b, pos + 1 + l, o);
        lemma_signed_fits(b, pos + 1 + l, o);
        lemma_decoded_runs_encodable(b, pos + 1 + l + o, next);
        let rs = decode_from(b, pos, lcn)->Runs_0;
        let rest = decode_from(b, pos + 1 + l + o, next)->Runs_0;
        assert(rs == seq![DataRun { start_lcn: next as u64, length: len as u64 }] + rest);
        assert(rs.drop_first() =~= rest);
        assert(rs[0].start_lcn - lcn == le_signed(b, pos + 1 + l, o));
        assert(rs[0].length >= 1);
        assert(rs[0].start_lcn == next);
    }
}

proof fn lemma_encode_then_decode(rs: Seq<DataRun>, prev: int)
    requires
        encodable(rs, prev),
    ensures
        decode_from(encode_runs(rs, prev), 0, prev) == RunlistDecode::Runs(rs),
    decreases rs.len(),
{
    let e = encode_runs(rs, prev);
    if rs.len() == 0 {
        assert(e[0] == 0);
        assert(rs =~= seq![]);
    } else {
        let r = rs[0];
        let rest = rs.drop_first();
        let d = r.start_lcn - prev;
        let l = unsigned_width(r.length as int);
        let o = signed_width(d);
        assert(pow256(8) == 0x1_0000_0000_0000_0000) by {
            reveal_with_fuel(pow256, 9);
        }
        lemma_unsigned_width(r.length as int, 1);
        lemma_signed_width(d, 1);
        lemma_bytes_len(r.length as int, l);
        lemma_bytes_len(d, o);
        let h: u8 = (16 * o + l) as u8;
        let lb = le_bytes(r.length as int, l);
        let ob = le_bytes(d, o);
        let t = encode_runs(rest, r.start_lcn as int);
        let head = seq![h] + lb + ob;
        assert(e == head + t);
        assert(h as int == 16 * o + l);
        assert(h % 16 == l && h / 16 == o) by {
            vstd::arithmetic::div_mod::lemma_fundamental_div_mod_converse(h as int, 16, o as int, l as int);
        }
        assert(e[0] == h);
        assert forall|k: int| 0 <= k < l implies e[1 + k] == #[trigger] lb[k] by {
            assert(head[1 + k] == lb[k]);
        }
        assert forall|k: int| 0 <= k < o implies e[1 + l + k] == #[trigger] ob[k] by {
            assert(head[1 + l + k] == ob[k]);
        }
        lemma_pow256_monotone(l, 8);
        lemma_unsigned_of_bytes(e, 1, r.length as int, l);
        lemma_signed_of_bytes(e, 1 + l as int, d, o);
        lemma_decode_shift(head, t, 0, r.start_lcn as int);
        lemma_encode_then_decode(rest, r.start_lcn as int);
        assert(rs =~= seq![DataRun { start_lcn: r.start_lcn, length: r.length }] + rest);
    }
}

/// Runlist decoding is lossless: re-encoding the runs a runlist decodes to,
/// each with the fewest length and offset bytes, gives a runlist that decodes
/// to the same runs. The two byte strings differ at most in redundant
/// leading-zero (or sign) padding of the fields.
pub proof fn lemma_runlist_round_trip(b: Seq<u8>)
    requires
        decode_runlist(b) is Runs,
    ensures
        decode_runlist(encode_runs(decode_runlist(b)->Runs_0, 0)) == decode_runlist(b),
{
    lemma_decoded_runs_encodable(b, 0, 0);
    lemma_encode_then_decode(decode_runlist(b)->Runs_0, 0);
}

} // verus!
