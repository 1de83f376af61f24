//! Batched range check circuit: each row holds a value and its 31-bit
//! little-endian decomposition. The constraints force every bit column to
//! be boolean and the weighted bit sum to reconstruct the value column, so
//! a committed value can only verify when it lies below `2^31`.

use vstd::prelude::*;

use crate::field::{fadd, fadd_spec, fmul, fmul_spec, freduce, freduce_spec, fsub, fsub_spec, P};
use crate::trace::{lemma_entries_determine_trace, pad_height, pad_to_pow2, Trace};

verus! {

/// Bit `j` of `v`, as 0 or 1.
pub open spec fn bit_of(v: u32, j: int) -> int {
    ((v >> (j as u32)) & 1) as int
}

/// The shape of a generated range check trace: one row per value, holding
/// the value followed by its 31 low-order bits; padding rows are zero.
pub open spec fn is_range_check_trace(t: Trace, values: Seq<u32>) -> bool {
    &&& t.wf()
    &&& t.width == 32
    &&& t.height() == pad_height(values.len() as int)
    &&& forall|i: int|
        0 <= i < values.len() ==> {
            &&& #[trigger] t.entry(i, 0) == freduce_spec(values[i] as int)
            &&& forall|j: int|
                1 <= j < 32 ==> #[trigger] t.entry(i, j) == bit_of(values[i], j - 1)
        }
    &&& forall|i: int, j: int|
        values.len() <= i < t.height() && 0 <= j < 32 ==> #[trigger] t.entry(i, j) == 0
}

/// Constraint system for the batched range check: 32 columns, no public
/// parameters beyond the trace height.
pub struct RangeCheckAir {
    pub num_rows: usize,
}

/// The booleanity constraint on entry `(i, j)`: `bit * (bit - 1) = 0` in
/// the field.
pub open spec fn bit_constraint_ok(t: Trace, i: int, j: int) -> bool {
    fmul_spec(t.entry(i, j), fsub_spec(t.entry(i, j), 1)) == 0
}

/// The field value recomposed from the first `j` bit columns of row `i`,
/// little-endian: the running sum of `bit * 2^(column - 1)`.
pub open spec fn recompose(t: Trace, i: int, j: int) -> int
    decreases j,
{
    if j <= 0 {
        0
    } else {
        fadd_spec(
            recompose(t, i, j - 1),
            fmul_spec(t.entry(i, j), (1u32 << ((j - 1) as u32)) as int),
        )
    }
}

/// All constraints on row `i`: every bit column is boolean and the
/// weighted bit sum reconstructs the value column.
pub open spec fn row_constraints_ok(t: Trace, i: int) -> bool {
    &&& forall|j: int| 1 <= j < 32 ==> #[trigger] bit_constraint_ok(t, i, j)
    &&& recompose(t, i, 31) == t.entry(i, 0)
}

impl RangeCheckAir {
    /// The fixed column count of this circuit.
    pub fn width(&self) -> (w: usize)
        ensures
            w == 32,
    {
        32
    }

    /// The constraints this circuit imposes on a trace: every row but the
    /// last satisfies the per-row bit constraints.
    pub open spec fn constraints_ok(self, t: Trace) -> bool {
        forall|i: int| 0 <= i < t.height() - 1 ==> #[trigger] row_constraints_ok(t, i)
    }

    /// Evaluates every constraint of this circuit directly on a trace.
    pub fn check_trace(&self, t: &Trace) -> (ok: bool)
        requires
            t.wf(),
            t.width == 32,
        ensures
            ok == self.constraints_ok(*t),
    {
        let h = t.num_rows();
        let mut ok = true;
        let mut i: usize = 0;
        while i < h - 1
            invariant
                t.wf(),
                t.width == 32,
                h == t.height(),
                i <= h - 1,
                ok == (forall|r: int| 0 <= r < i ==> #[trigger] row_constraints_ok(*t, r)),
            decreases h - 1 - i,
        {
            let row = check_row(t, i);
            ok = ok && row;
            i = i + 1;
        }
        ok
    }
}

/// Evaluates the per-row constraints on row `i`.
fn check_row(t: &Trace, i: usize) -> (ok: bool)
    requires
        t.wf(),
        t.width == 32,
        i < t.height(),
    ensures
        ok == row_constraints_ok(*t, i as int),
{
    let mut bits_ok = true;
    let mut j: usize = 1;
    while j < 32
        invariant
            t.wf(),
            t.width == 32,
            i < t.height(),
            1 <= j <= 32,
            bits_ok == (forall|c: int| 1 <= c < j ==> #[trigger] bit_constraint_ok(*t, i as int, c)),
        decreases 32 - j,
    {
        let b = t.get(i, j);
        let c = fmul(b, fsub(b, 1)) == 0;
        proof {
            assert(c == bit_constraint_ok(*t, i as int, j as int));
        }
        bits_ok = bits_ok && c;
        j = j + 1;
    }
    let mut rec: u32 = 0;
    let mut j: usize = 1;
    while j < 32
        invariant
            t.wf(),
            t.width == 32,
            i < t.height(),
            1 <= j <= 32,
            rec < P,
            rec as int == recompose(*t, i as int, j as int - 1),
        decreases 32 - j,
    {
        let shift: u32 = (j as u32) - 1;
        proof {
            assert((1u32 << shift) < 0x7fff_ffffu32) by (bit_vector)
                requires
                    shift < 31u32;
        }
        let w: u32 = 1u32 << shift;
        rec = fadd(rec, fmul(t.get(i, j), w));
        j = j + 1;
    }
    bits_ok && rec == t.get(i, 0)
}

/// Builds the range check trace for the given values: one row per value
/// holding the value and its 31 low-order bits, padded with zero rows to a
/// power-of-two height.
pub fn generate_range_check_trace(values: &[u32]) -> (res: (Trace, usize))
    requires
        values@.len() <= 0x2_0000,
    ensures
        is_range_check_trace(res.0, values@),
        res.1 == res.0.height(),
{
    let n = values.len();
    let mut data: Vec<u32> = Vec::new();
    let mut i: usize = 0;
    while i < n
        invariant
            n == values@.len(),
            n <= 0x2_0000,
            i <= n,
            data@.len() == 32 * i,
            forall|k: int| 0 <= k < data@.len() ==> (#[trigger] data@[k] as int) < P,
            forall|r: int|
                0 <= r < i ==> {
                    &&& data@[32 * r] as int == #[trigger] freduce_spec(values@[r] as int)
                    &&& forall|j: int|
                        0 <= j < 31 ==> data@[32 * r + 1 + j] as int == #[trigger] bit_of(
                            values@[r],
                            j,
                        )
                }
        decreases n - i,
    {
        let v = values[i];
        let ghost pre = data@;
        data.push(freduce(v));
        let mut j: usize = 0;
        while j < 31
            invariant
                n == values@.len(),
                i < n,
                v == values@[i as int],
                pre.len() == 32 * i,
                j <= 31,
                data@.len() == 32 * i + 1 + j,
                forall|k: int| 0 <= k < pre.len() ==> #[trigger] data@[k] == pre[k],
                data@[32 * (i as int)] as int == freduce_spec(v as int),
                forall|jj: int|
                    0 <= jj < j ==> data@[32 * (i as int) + 1 + jj] as int == #[trigger] bit_of(
                        v,
                        jj,
                    ),
                forall|k: int|
                    pre.len() <= k < data@.len() ==> (#[trigger] data@[k] as int) < P,
            decreases 31 - j,
        {
            let s: u32 = j as u32;
            proof {
                assert(((v >> s) & 1) <= 1) by (bit_vector);
            }
            let bit: u32 = (v >> s) & 1;
            data.push(bit);
            j = j + 1;
        }
        i = i + 1;
    }
    proof {
        vstd::arithmetic::div_mod::lemma_mod_multiples_basic(n as int, 32int);
    }
    let (t, h) = pad_to_pow2(data, 32);
    proof {
        let ghost vs = values@;
        assert forall|i: int| 0 <= i < vs.len() implies {
            &&& t.entry(i, 0) == freduce_spec(vs[i] as int)
            &&& forall|j: int| 1 <= j < 32 ==> #[trigger] t.entry(i, j) == bit_of(vs[i], j - 1)
        } by {
            assert(data@[32 * i] as int == freduce_spec(vs[i] as int));
            assert(t.values@[32 * i] == data@[32 * i]);
            assert forall|j: int| 1 <= j < 32 implies #[trigger] t.entry(i, j) == bit_of(
                vs[i],
                j - 1,
            ) by {
                assert(t.values@[32 * i + j] == data@[32 * i + j]);
                assert(data@[32 * i + 1 + (j - 1)] as int == bit_of(vs[i], j - 1));
            }
        }
        assert forall|i: int, j: int|
            vs.len() <= i < t.height() && 0 <= j < 32 implies #[trigger] t.entry(i, j)
            == 0 by {
            assert(t.values@.len() == t.height() * 32);
            assert(32 * i + j < t.values@.len());
            assert(32 * i + j >= data@.len());
            assert(t.values@[32 * i + j] == 0);
        }
    }
    (t, h)
}

/// The low `j` bits of `v`, as a machine value.
pub open spec fn low_bits(v: u32, j: u32) -> u32 {
    v & (((1u32 << j) - 1) as u32)
}

/// Successive integers have distinct residues modulo the field prime.
proof fn lemma_mod_succ_distinct(a: int)
    requires
        a >= 0,
    ensures
        (a + 1) % (P as int) != a % (P as int),
{
    let m = P as int;
    let q = a / m;
    let r = a % m;
    vstd::arithmetic::div_mod::lemma_mod_division_less_than_divisor(a, m);
    vstd::arithmetic::div_mod::lemma_fundamental_div_mod(a, m);
    if r == m - 1 {
        assert(a + 1 == (q + 1) * m) by {
            vstd::arithmetic::mul::lemma_mul_is_distributive_add_other_way(m, q, 1);
            vstd::arithmetic::mul::lemma_mul_basics(m);
            vstd::arithmetic::mul::lemma_mul_is_commutative(m, q);
        }
        vstd::arithmetic::div_mod::lemma_mod_multiples_basic(q + 1, m);
    } else {
        vstd::arithmetic::div_mod::lemma_mod_multiples_vanish(q, r + 1, m);
        vstd::arithmetic::div_mod::lemma_small_mod((r + 1) as nat, m as nat);
    }
}

/// A row of zeros satisfies every per-row constraint: padding rows verify
/// trivially.
proof fn lemma_recompose_zero(t: Trace, i: int, j: int)
    requires
        0 <= j <= 31,
        forall|c: int| 1 <= c < 32 ==> #[trigger] t.entry(i, c) == 0,
    ensures
        recompose(t, i, j) == 0,
    decreases j,
{
    if j > 0 {
        lemma_recompose_zero(t, i, j - 1);
    }
}

proof fn lemma_zero_row_ok(t: Trace, i: int)
    requires
        forall|j: int| 0 <= j < 32 ==> #[trigger] t.entry(i, j) == 0,
    ensures
        row_constraints_ok(t, i),
{
    lemma_recompose_zero(t, i, 31);
}

/// On a row holding the genuine bit decomposition of `v`, the partial
/// recomposition equals the low bits of `v`, reduced into the field.
proof fn lemma_recompose_bits(t: Trace, i: int, v: u32, j: u32)
    requires
        j <= 31,
        forall|c: int| 1 <= c < 32 ==> #[trigger] t.entry(i, c) == bit_of(v, c - 1),
    ensures
        recompose(t, i, j as int) == (low_bits(v, j) as int) % (P as int),
    decreases j,
{
    if j == 0 {
        assert(low_bits(v, 0) == 0) by (bit_vector);
    } else {
        lemma_recompose_bits(t, i, v, (j - 1) as u32);
        assert(t.entry(i, j as int) == bit_of(v, j as int - 1));
        let bit = (v >> ((j - 1) as u32)) & 1;
        let w = 1u32 << ((j - 1) as u32);
        assert(low_bits(v, (j - 1) as u32) <= 0x3fff_ffffu32 && ((v >> ((j - 1) as u32))
            & 1) * (1u32 << ((j - 1) as u32)) <= 0x4000_0000u32 && (low_bits(
            v,
            (j - 1) as u32,
        ) as int) + (((v >> ((j - 1) as u32)) & 1) as int) * ((1u32 << ((j - 1) as u32)) as int)
            == low_bits(v, j) as int && low_bits(v, j) <= 0x7fff_ffffu32) by (bit_vector)
            requires
                1u32 <= j <= 31u32;
        vstd::arithmetic::div_mod::lemma_small_mod(
            low_bits(v, (j - 1) as u32) as nat,
            P as nat,
        );
        vstd::arithmetic::div_mod::lemma_small_mod(
            ((bit as int) * (w as int)) as nat,
            P as nat,
        );
    }
}

/// On a row holding the genuine decomposition of `v`, the per-row
/// constraints hold exactly when `v` lies below `2^31`.
proof fn lemma_row_iff(t: Trace, i: int, v: u32)
    requires
        t.entry(i, 0) == freduce_spec(v as int),
        forall|c: int| 1 <= c < 32 ==> #[trigger] t.entry(i, c) == bit_of(v, c - 1),
    ensures
        row_constraints_ok(t, i) <==> (v < 0x8000_0000),
{
    assert forall|j: int| 1 <= j < 32 implies #[trigger] bit_constraint_ok(t, i, j) by {
        let s = (j - 1) as u32;
        assert(((v >> s) & 1) <= 1) by (bit_vector);
        assert(t.entry(i, j) == bit_of(v, j - 1));
        assert(t.entry(i, j) == 0 || t.entry(i, j) == 1);
    }
    lemma_recompose_bits(t, i, v, 31);
    if v < 0x8000_0000 {
        assert(low_bits(v, 31) == v) by (bit_vector)
            requires
                v < 0x8000_0000u32;
    } else {
        assert(low_bits(v, 31) as int == v as int - 0x8000_0000) by (bit_vector)
            requires
                v >= 0x8000_0000u32;
        let a = low_bits(v, 31) as int;
        vstd::arithmetic::div_mod::lemma_mod_add_multiples_vanish(a + 1, P as int);
        lemma_mod_succ_distinct(a);
        assert(recompose(t, i, 31) != t.entry(i, 0));
    }
}

/// A generated range check trace passes the constraint check exactly when
/// every value among the checked rows lies below `2^31`. Every real row
/// before the last row of the padded trace is checked; in particular,
/// whenever padding added at least one row, all values are checked.
pub proof fn lemma_range_check_verify_iff(t: Trace, values: Seq<u32>, air: RangeCheckAir)
    requires
        is_range_check_trace(t, values),
    ensures
        air.constraints_ok(t) <==> (forall|i: int|
            0 <= i < values.len() && i < t.height() - 1 ==> (#[trigger] values[i])
                < 0x8000_0000),
{
    let h = t.height();
    if air.constraints_ok(t) {
        assert forall|i: int|
            0 <= i < values.len() && i < h - 1 implies (#[trigger] values[i])
            < 0x8000_0000 by {
            assert(row_constraints_ok(t, i));
            assert(t.entry(i, 0) == freduce_spec(values[i] as int));
            lemma_row_iff(t, i, values[i]);
        }
    }
    if forall|i: int|
        0 <= i < values.len() && i < h - 1 ==> (#[trigger] values[i]) < 0x8000_0000 {
        assert forall|i: int| 0 <= i < h - 1 implies #[trigger] row_constraints_ok(
            t,
            i,
        ) by {
            if i < values.len() {
                assert(t.entry(i, 0) == freduce_spec(values[i] as int));
                assert(values[i] < 0x8000_0000);
                lemma_row_iff(t, i, values[i]);
            } else {
                lemma_zero_row_ok(t, i);
            }
        }
    }
}

/// Trace generation is deterministic: any two traces generated from the
/// same input hold bit-identical data.
pub proof fn lemma_range_check_trace_deterministic(t1: Trace, t2: Trace, values: Seq<u32>)
    requires
        is_range_check_trace(t1, values),
        is_range_check_trace(t2, values),
    ensures
        t1.width == t2.width,
        t1.values@ == t2.values@,
{
    assert forall|r: int, c: int|
        0 <= r < t1.height() && 0 <= c < t1.width implies t1.entry(r, c) == t2.entry(
        r,
        c,
    ) by {
        if r < values.len() {
            assert(t1.entry(r, 0) == freduce_spec(values[r] as int));
            assert(t2.entry(r, 0) == freduce_spec(values[r] as int));
            if 1 <= c {
                assert(t1.entry(r, c) == bit_of(values[r], c - 1));
                assert(t2.entry(r, c) == bit_of(values[r], c - 1));
            }
        } else {
            assert(t1.entry(r, c) == 0);
            assert(t2.entry(r, c) == 0);
        }
    }
    lemma_entries_determine_trace(t1, t2);
}

/// A range check over an empty batch produces the minimum-size, all-zero
/// padded trace, and that trace passes the constraint check.
pub proof fn lemma_range_check_empty(t: Trace, air: RangeCheckAir)
    requires
        is_range_check_trace(t, Seq::<u32>::empty()),
    ensures
        t.height() == 4,
        t.width == 32,
        forall|k: int| 0 <= k < t.values@.len() ==> #[trigger] t.values@[k] == 0,
        air.constraints_ok(t),
{
    let w = 32int;
    let h = t.height();
    assert forall|k: int| 0 <= k < t.values@.len() implies #[trigger] t.values@[k]
        == 0 by {
        vstd::arithmetic::div_mod::lemma_fundamental_div_mod(k, w);
        vstd::arithmetic::div_mod::lemma_mod_division_less_than_divisor(k, w);
        vstd::arithmetic::div_mod::lemma_div_pos_is_pos(k, w);
        vstd::arithmetic::mul::lemma_mul_is_commutative(h, w);
        vstd::arithmetic::div_mod::lemma_multiply_divide_lt(k, w, h);
        vstd::arithmetic::mul::lemma_mul_is_commutative(k / w, w);
        assert(t.entry(k / w, k % w) == 0);
    }
    assert forall|i: int| 0 <= i < h - 1 implies #[trigger] row_constraints_ok(t, i) by {
        lemma_zero_row_ok(t, i);
    }
}

} // verus!
