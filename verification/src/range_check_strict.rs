//! Strict single-value range check circuit: one value is decomposed into
//! 32 bits, most significant first, in a single row. The most significant
//! bit is forced to zero, so the value must lie below `2^31` even though
//! 32 bit columns are committed; every row after the first must be all
//! zero, so only one real row of data exists.

use vstd::prelude::*;

use crate::field::{fadd, fadd_spec, fmul, fmul_spec, freduce, freduce_spec, fsub, P};
use crate::range_check::{bit_constraint_ok, bit_of};
use crate::trace::{lemma_entries_determine_trace, pad_height, pad_to_pow2, Trace};

verus! {

/// The shape of a generated strict range check trace: the first row holds
/// the 32 bits of the value, most significant first; every other row is
/// zero.
pub open spec fn is_strict_trace(t: Trace, value: u32) -> bool {
    &&& t.wf()
    &&& t.width == 32
    &&& t.height() == pad_height(1)
    &&& forall|c: int| 0 <= c < 32 ==> #[trigger] t.entry(0, c) == bit_of(value, 31 - c)
    &&& forall|r: int, c: int|
        1 <= r < t.height() && 0 <= c < 32 ==> #[trigger] t.entry(r, c) == 0
}

/// The weight of column `c` in the big-endian reconstruction: `2^(31-c)`,
/// wrapped into the field (so the weight of the most significant bit
/// column is 1).
pub open spec fn weight_be(c: int) -> int {
    ((1u32 << ((31 - c) as u32)) as int) % (P as int)
}

/// The field value recomposed from the first `c` columns of row `r`,
/// big-endian.
pub open spec fn recompose_be(t: Trace, r: int, c: int) -> int
    decreases c,
{
    if c <= 0 {
        0
    } else {
        fadd_spec(recompose_be(t, r, c - 1), fmul_spec(t.entry(r, c - 1), weight_be(c - 1)))
    }
}

/// The field sum of the first `c` columns of row `r`.
pub open spec fn rowsum(t: Trace, r: int, c: int) -> int
    decreases c,
{
    if c <= 0 {
        0
    } else {
        fadd_spec(rowsum(t, r, c - 1), t.entry(r, c - 1))
    }
}

/// Constraint system for the strict range check: 32 columns, the checked
/// value carried as a public parameter.
pub struct RangeCheckAir {
    pub value: u32,
}

impl RangeCheckAir {
    /// The fixed column count of this circuit.
    pub fn width(&self) -> (w: usize)
        ensures
            w == 32,
    {
        32
    }

    /// The constraints this circuit imposes on a trace: the most
    /// significant bit of the first row is zero, every entry is boolean,
    /// the big-endian reconstruction of the first row equals the declared
    /// value, and every row after the first sums to zero.
    pub open spec fn constraints_ok(self, t: Trace) -> bool {
        &&& t.entry(0, 0) == 0
        &&& forall|r: int, c: int|
            0 <= r < t.height() && 0 <= c < 32 ==> #[trigger] bit_constraint_ok(t, r, c)
        &&& recompose_be(t, 0, 32) == freduce_spec(self.value as int)
        &&& forall|r: int| 1 <= r < t.height() ==> #[trigger] rowsum(t, r, 32) == 0
    }

    /// Evaluates every constraint of this circuit directly on a trace.
    pub fn check_trace(&self, t: &Trace) -> (ok: bool)
        requires
            t.wf(),
            t.width == 32,
        ensures
            ok == self.constraints_ok(*t),
    {
        let h = t.num_rows();
        let msb_ok = t.get(0, 0) == 0;
        let mut bits_ok = true;
        let mut r: usize = 0;
        while r < h
            invariant
                t.wf(),
                t.width == 32,
                h == t.height(),
                r <= h,
                bits_ok == (forall|rr: int, cc: int|
                    0 <= rr < r && 0 <= cc < 32 ==> #[trigger] bit_constraint_ok(
                        *t,
                        rr,
                        cc,
                    )),
            decreases h - r,
        {
            let mut c: usize = 0;
            let mut row_bits = true;
            while c < 32
                invariant
                    t.wf(),
                    t.width == 32,
                    h == t.height(),
                    r < h,
                    c <= 32,
                    row_bits == (forall|cc: int|
                        0 <= cc < c ==> #[trigger] bit_constraint_ok(*t, r as int, cc)),
                decreases 32 - c,
            {
                let b = t.get(r, c);
                let good = fmul(b, fsub(b, 1)) == 0;
                proof {
                    assert(good == bit_constraint_ok(*t, r as int, c as int));
                }
                row_bits = row_bits && good;
                c = c + 1;
            }
            bits_ok = bits_ok && row_bits;
            r = r + 1;
        }
        let mut rec: u32 = 0;
        let mut c: usize = 0;
        while c < 32
            invariant
                t.wf(),
                t.width == 32,
                c <= 32,
                rec < P,
                rec as int == recompose_be(*t, 0, c as int),
            decreases 32 - c,
        {
            let s: u32 = 31 - (c as u32);
            let w = freduce(1u32 << s);
            rec = fadd(rec, fmul(t.get(0, c), w));
            c = c + 1;
        }
        let rec_ok = rec == freduce(self.value);
        let mut sums_ok = true;
        let mut r: usize = 1;
        while r < h
            invariant
                t.wf(),
                t.width == 32,
                h == t.height(),
                1 <= r <= h,
                sums_ok == (forall|rr: int|
                    1 <= rr < r ==> #[trigger] rowsum(*t, rr, 32) == 0),
            decreases h - r,
        {
            let mut c: usize = 0;
            let mut rs: u32 = 0;
            while c < 32
                invariant
                    t.wf(),
                    t.width == 32,
                    h == t.height(),
                    1 <= r < h,
                    c <= 32,
                    rs < P,
                    rs as int == rowsum(*t, r as int, c as int),
                decreases 32 - c,
            {
                rs = fadd(rs, t.get(r, c));
                c = c + 1;
            }
            sums_ok = sums_ok && rs == 0;
            r = r + 1;
        }
        msb_ok && bits_ok && rec_ok && sums_ok
    }
}

/// Builds the strict range check trace: a single row holding the 32 bits
/// of the value, most significant first, padded with zero rows to the
/// minimum height.
pub fn generate_range_check_trace(value: u32) -> (res: (Trace, usize))
    ensures
        is_strict_trace(res.0, value),
        res.1 == res.0.height(),
{
    let mut data: Vec<u32> = Vec::new();
    let mut c: usize = 0;
    while c < 32
        invariant
            c <= 32,
            data@.len() == c,
            forall|k: int| 0 <= k < c ==> data@[k] as int == #[trigger] bit_of(value, 31 - k),
            forall|k: int| 0 <= k < c ==> (#[trigger] data@[k] as int) < P,
        decreases 32 - c,
    {
        let s: u32 = 31 - (c as u32);
        proof {
            assert(((value >> s) & 1) <= 1) by (bit_vector);
        }
        let bit: u32 = (value >> s) & 1;
        data.push(bit);
        c = c + 1;
    }
    let (t, h) = pad_to_pow2(data, 32);
    proof {
        assert forall|c: int| 0 <= c < 32 implies #[trigger] t.entry(0, c) == bit_of(
            value,
            31 - c,
        ) by {
            assert(t.values@[c] == data@[c]);
        }
        assert forall|r: int, c: int|
            1 <= r < t.height() && 0 <= c < 32 implies #[trigger] t.entry(r, c) == 0 by {
            assert(t.values@.len() == t.height() * 32);
            assert(32 * r + c < t.values@.len());
            assert(32 * r + c >= data@.len());
            assert(t.values@[32 * r + c] == 0);
        }
    }
    (t, h)
}

/// The value formed by the top `c` bits of `v`, kept in place: `v` with
/// its `32 - c` low bits cleared.
pub open spec fn top_bits(v: u32, c: u32) -> u32 {
    (v >> ((32 - c) as u32)) << ((32 - c) as u32)
}

/// A row of zeros sums to zero.
proof fn lemma_rowsum_zero(t: Trace, r: int, c: int)
    requires
        0 <= c <= 32,
        forall|cc: int| 0 <= cc < 32 ==> #[trigger] t.entry(r, cc) == 0,
    ensures
        rowsum(t, r, c) == 0,
    decreases c,
{
    if c > 0 {
        lemma_rowsum_zero(t, r, c - 1);
    }
}

/// On the genuine big-endian decomposition of a value below `2^31`, the
/// partial reconstruction equals the value's top bits, reduced into the
/// field.
proof fn lemma_recompose_be_bits(t: Trace, v: u32, c: u32)
    requires
        1 <= c <= 32,
        v < 0x8000_0000,
        forall|cc: int| 0 <= cc < 32 ==> #[trigger] t.entry(0, cc) == bit_of(v, 31 - cc),
    ensures
        recompose_be(t, 0, c as int) == (top_bits(v, c) as int) % (P as int),
    decreases c,
{
    if c == 1 {
        assert(t.entry(0, 0) == bit_of(v, 31));
        assert(((v >> 31u32) & 1) == 0 && top_bits(v, 1) == 0) by (bit_vector)
            requires
                v < 0x8000_0000u32;
        assert(recompose_be(t, 0, 1) == fadd_spec(
            recompose_be(t, 0, 0),
            fmul_spec(t.entry(0, 0), weight_be(0)),
        ));
        assert(recompose_be(t, 0, 0) == 0);
        assert(fmul_spec(0, weight_be(0)) == 0);
        assert(fadd_spec(0, 0) == 0);
    } else {
        lemma_recompose_be_bits(t, v, (c - 1) as u32);
        assert(t.entry(0, c as int - 1) == bit_of(v, 31 - (c as int - 1)));
        let s = (32 - c) as u32;
        assert(top_bits(v, (c - 1) as u32) <= 0x7fff_fffeu32 && ((v >> s) & 1) <= 1
            && (1u32 << s) <= 0x4000_0000u32 && (top_bits(v, (c - 1) as u32) as int) + ((
        (v >> s) & 1) as int) * ((1u32 << s) as int) == top_bits(v, c) as int && top_bits(
            v,
            c,
        ) <= 0x7fff_ffffu32) by (bit_vector)
            requires
                2u32 <= c <= 32u32,
                v < 0x8000_0000u32,
                s == (32 - c) as u32;
        assert(weight_be(c as int - 1) == ((1u32 << s) as int)) by {
            assert((1u32 << s) <= 0x4000_0000u32) by (bit_vector)
                requires
                    s <= 30u32;
            vstd::arithmetic::div_mod::lemma_small_mod((1u32 << s) as nat, P as nat);
        }
        vstd::arithmetic::div_mod::lemma_small_mod(
            top_bits(v, (c - 1) as u32) as nat,
            P as nat,
        );
        vstd::arithmetic::div_mod::lemma_small_mod(
            ((((v >> s) & 1) as int) * ((1u32 << s) as int)) as nat,
            P as nat,
        );
        let bit = bit_of(v, 32 - c as int);
        assert(bit == (((v >> s) & 1) as int));
        assert(t.entry(0, c as int - 1) == bit);
        assert(recompose_be(t, 0, c as int) == fadd_spec(
            recompose_be(t, 0, c as int - 1),
            fmul_spec(t.entry(0, c as int - 1), weight_be(c as int - 1)),
        ));
        assert(recompose_be(t, 0, c as int - 1) == top_bits(v, (c - 1) as u32) as int);
        assert(fmul_spec(bit, weight_be(c as int - 1)) == bit * ((1u32 << s) as int));
        assert(fadd_spec(top_bits(v, (c - 1) as u32) as int, bit * ((1u32 << s) as int))
            == (top_bits(v, c) as int) % (P as int));
    }
}

/// A generated strict range check trace passes the constraint check
/// exactly when the declared value lies below `2^31`: the forbidden top
/// bit makes `2^31` and above fail.
pub proof fn lemma_strict_verify_iff(t: Trace, air: RangeCheckAir)
    requires
        is_strict_trace(t, air.value),
    ensures
        air.constraints_ok(t) <==> (air.value < 0x8000_0000),
{
    let v = air.value;
    if v >= 0x8000_0000 {
        assert(t.entry(0, 0) == bit_of(v, 31));
        assert(((v >> 31u32) & 1) == 1) by (bit_vector)
            requires
                v >= 0x8000_0000u32;
        assert(!air.constraints_ok(t));
    } else {
        assert(t.entry(0, 0) == bit_of(v, 31));
        assert(((v >> 31u32) & 1) == 0) by (bit_vector)
            requires
                v < 0x8000_0000u32;
        assert forall|r: int, c: int|
            0 <= r < t.height() && 0 <= c < 32 implies #[trigger] bit_constraint_ok(
            t,
            r,
            c,
        ) by {
            if r == 0 {
                assert(t.entry(0, c) == bit_of(v, 31 - c));
                let s = (31 - c) as u32;
                assert(((v >> s) & 1) <= 1) by (bit_vector);
                assert(t.entry(r, c) == 0 || t.entry(r, c) == 1);
            } else {
                assert(t.entry(r, c) == 0);
            }
        }
        lemma_recompose_be_bits(t, v, 32);
        assert(top_bits(v, 32) == v) by (bit_vector);
        assert forall|r: int| 1 <= r < t.height() implies #[trigger] rowsum(t, r, 32)
            == 0 by {
            lemma_rowsum_zero(t, r, 32);
        }
    }
}

/// Trace generation is deterministic: any two traces generated from the
/// same value hold bit-identical data.
pub proof fn lemma_strict_trace_deterministic(t1: Trace, t2: Trace, value: u32)
    requires
        is_strict_trace(t1, value),
        is_strict_trace(t2, value),
    ensures
        t1.width == t2.width,
        t1.values@ == t2.values@,
{
    assert forall|r: int, c: int|
        0 <= r < t1.height() && 0 <= c < t1.width implies t1.entry(r, c) == t2.entry(
        r,
        c,
    ) by {
        if r == 0 {
            assert(t1.entry(0, c) == bit_of(value, 31 - c));
            assert(t2.entry(0, c) == bit_of(value, 31 - c));
        } else {
            assert(t1.entry(r, c) == 0);
            assert(t2.entry(r, c) == 0);
        }
    }
    lemma_entries_determine_trace(t1, t2);
}

} // verus!
