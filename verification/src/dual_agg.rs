//! Dual aggregation circuit: each row carries a running sum and a running
//! sum of squares over a sequence of transaction values, followed by the
//! value consumed in that row. A final assertion row exposes the totals,
//! which the constraint system compares against the declared public
//! parameters.

use vstd::prelude::*;

use crate::field::{fadd, fadd_spec, fmul, fmul_spec, freduce, freduce_spec, P};
use crate::trace::{
    lemma_entries_determine_trace, pad_height, pad_to_pow2, Trace,
};

verus! {

/// The running field sum of the first `i` values.
pub open spec fn prefix_sum(txs: Seq<u32>, i: int) -> int
    decreases i,
{
    if i <= 0 {
        0
    } else {
        fadd_spec(prefix_sum(txs, i - 1), freduce_spec(txs[i - 1] as int))
    }
}

/// The running field sum of squares of the first `i` values.
pub open spec fn prefix_sumsq(txs: Seq<u32>, i: int) -> int
    decreases i,
{
    if i <= 0 {
        0
    } else {
        fadd_spec(
            prefix_sumsq(txs, i - 1),
            fmul_spec(freduce_spec(txs[i - 1] as int), freduce_spec(txs[i - 1] as int)),
        )
    }
}

/// The shape of a generated dual aggregation trace: row `i` holds both
/// accumulators as they stand before value `i` is consumed, then the value;
/// one assertion row carries the final totals; padding rows are zero.
pub open spec fn is_dual_agg_trace(t: Trace, txs: Seq<u32>) -> bool {
    &&& t.wf()
    &&& t.width == 3
    &&& t.height() == pad_height(txs.len() as int + 1)
    &&& forall|i: int|
        0 <= i <= txs.len() ==> {
            &&& #[trigger] t.entry(i, 0) == prefix_sum(txs, i)
            &&& t.entry(i, 1) == prefix_sumsq(txs, i)
            &&& t.entry(i, 2) == if i < txs.len() {
                freduce_spec(txs[i] as int)
            } else {
                0
            }
        }
    &&& forall|i: int|
        txs.len() < i < t.height() ==> {
            &&& #[trigger] t.entry(i, 0) == 0
            &&& t.entry(i, 1) == 0
            &&& t.entry(i, 2) == 0
        }
}

/// Constraint system for dual aggregation: 3 columns, with the declared
/// totals carried as public parameters.
pub struct DualAggAir {
    pub num_rows: usize,
    pub expected_sum: u32,
    pub expected_sumsq: u32,
}

/// The first-row constraint: both accumulators start at zero.
pub open spec fn first_row_ok(t: Trace) -> bool {
    t.entry(0, 0) == 0 && t.entry(0, 1) == 0
}

/// The transition constraint into row `i`: the sum accumulator grows by the
/// previous row's value, the sum-of-squares accumulator by its square.
pub open spec fn transition_ok(t: Trace, i: int) -> bool {
    &&& t.entry(i, 0) == fadd_spec(t.entry(i - 1, 0), t.entry(i - 1, 2))
    &&& t.entry(i, 1) == fadd_spec(
        t.entry(i - 1, 1),
        fmul_spec(t.entry(i - 1, 2), t.entry(i - 1, 2)),
    )
}

impl DualAggAir {
    /// The fixed column count of this circuit.
    pub fn width(&self) -> (w: usize)
        ensures
            w == 3,
    {
        3
    }

    /// All constraints this circuit imposes on a trace: zero accumulators
    /// on the first row, the aggregation transitions, and the declared
    /// totals on the last row of the padded trace.
    pub open spec fn constraints_ok(self, t: Trace) -> bool {
        &&& first_row_ok(t)
        &&& forall|i: int| 1 <= i < t.height() ==> #[trigger] transition_ok(t, i)
        &&& t.entry(t.height() - 1, 0) == freduce_spec(self.expected_sum as int)
        &&& t.entry(t.height() - 1, 1) == freduce_spec(self.expected_sumsq as int)
    }

    /// Evaluates every constraint of this circuit directly on a trace.
    pub fn check_trace(&self, t: &Trace) -> (ok: bool)
        requires
            t.wf(),
            t.width == 3,
        ensures
            ok == self.constraints_ok(*t),
    {
        let h = t.num_rows();
        let mut ok = t.get(0, 0) == 0 && t.get(0, 1) == 0;
        let mut i: usize = 1;
        while i < h
            invariant
                t.wf(),
                t.width == 3,
                h == t.height(),
                1 <= i <= h,
                ok == (first_row_ok(*t) && forall|j: int|
                    1 <= j < i ==> #[trigger] transition_ok(*t, j)),
            decreases h - i,
        {
            let s = fadd(t.get(i - 1, 0), t.get(i - 1, 2));
            let q = fadd(t.get(i - 1, 1), fmul(t.get(i - 1, 2), t.get(i - 1, 2)));
            let step = t.get(i, 0) == s && t.get(i, 1) == q;
            proof {
                assert(step == transition_ok(*t, i as int));
            }
            ok = ok && step;
            i = i + 1;
        }
        let last_ok = t.get(h - 1, 0) == freduce(self.expected_sum) && t.get(h - 1, 1)
            == freduce(self.expected_sumsq);
        ok && last_ok
    }
}

/// Builds the dual aggregation trace for the given values: one row per
/// value, one assertion row holding the final totals, padded with zero
/// rows to a power-of-two height.
pub fn generate_dual_agg_trace(txs: &[u32]) -> (res: (Trace, usize))
    requires
        txs@.len() <= 0x10_0000,
    ensures
        is_dual_agg_trace(res.0, txs@),
        res.1 == res.0.height(),
{
    let n = txs.len();
    let mut data: Vec<u32> = Vec::new();
    let mut acc1: u32 = 0;
    let mut acc2: u32 = 0;
    let mut idx: usize = 0;
    while idx < n
        invariant
            n == txs@.len(),
            n <= 0x10_0000,
            idx <= n,
            data@.len() == 3 * idx,
            acc1 < P,
            acc2 < P,
            acc1 as int == prefix_sum(txs@, idx as int),
            acc2 as int == prefix_sumsq(txs@, idx as int),
            forall|k: int| 0 <= k < data@.len() ==> (#[trigger] data@[k] as int) < P,
            forall|i: int|
                0 <= i < idx ==> {
                    &&& data@[3 * i] as int == #[trigger] prefix_sum(txs@, i)
                    &&& data@[3 * i + 1] as int == prefix_sumsq(txs@, i)
                    &&& data@[3 * i + 2] as int == freduce_spec(txs@[i] as int)
                }
        decreases n - idx,
    {
        let famt = freduce(txs[idx]);
        let ghost pre = data@;
        data.push(acc1);
        data.push(acc2);
        data.push(famt);
        proof {
            assert(data@ == pre.push(acc1).push(acc2).push(famt));
            assert(data@[3 * (idx as int)] == acc1);
            assert(data@[3 * (idx as int) + 1] == acc2);
            assert(data@[3 * (idx as int) + 2] == famt);
            assert(forall|k: int| 0 <= k < pre.len() ==> #[trigger] data@[k] == pre[k]);
        }
        acc1 = fadd(acc1, famt);
        acc2 = fadd(acc2, fmul(famt, famt));
        idx = idx + 1;
    }
    data.push(acc1);
    data.push(acc2);
    data.push(0);
    proof {
        vstd::arithmetic::div_mod::lemma_mod_multiples_basic(
            (n + 1) as int,
            3int,
        );
    }
    let (t, h) = pad_to_pow2(data, 3);
    proof {
        let ghost txs_s = txs@;
        assert forall|i: int| 0 <= i <= txs_s.len() implies {
            &&& t.entry(i, 0) == prefix_sum(txs_s, i)
            &&& t.entry(i, 1) == prefix_sumsq(txs_s, i)
            &&& t.entry(i, 2) == if i < txs_s.len() {
                freduce_spec(txs_s[i] as int)
            } else {
                0
            }
        } by {
            assert(t.values@[3 * i] == data@[3 * i]);
            assert(t.values@[3 * i + 1] == data@[3 * i + 1]);
            assert(t.values@[3 * i + 2] == data@[3 * i + 2]);
        }
        assert forall|i: int| txs_s.len() < i < t.height() implies {
            &&& t.entry(i, 0) == 0
            &&& t.entry(i, 1) == 0
            &&& t.entry(i, 2) == 0
        } by {
            assert(t.values@.len() == t.height() * 3);
            assert(3 * i + 2 < t.values@.len());
            assert(t.values@[3 * i] == 0);
            assert(t.values@[3 * i + 1] == 0);
            assert(t.values@[3 * i + 2] == 0);
        }
    }
    (t, h)
}

/// The public totals the prover declares for a value sequence: the field
/// sum and field sum of squares of all values.
pub fn dual_agg_public_values(txs: &[u32]) -> (res: (u32, u32))
    ensures
        res.0 as int == prefix_sum(txs@, txs@.len() as int),
        res.1 as int == prefix_sumsq(txs@, txs@.len() as int),
{
    let n = txs.len();
    let mut acc1: u32 = 0;
    let mut acc2: u32 = 0;
    let mut idx: usize = 0;
    while idx < n
        invariant
            n == txs@.len(),
            idx <= n,
            acc1 < P,
            acc2 < P,
            acc1 as int == prefix_sum(txs@, idx as int),
            acc2 as int == prefix_sumsq(txs@, idx as int),
        decreases n - idx,
    {
        let famt = freduce(txs[idx]);
        acc1 = fadd(acc1, famt);
        acc2 = fadd(acc2, fmul(famt, famt));
        idx = idx + 1;
    }
    (acc1, acc2)
}

/// A generated dual aggregation trace whose padding added no rows passes
/// the constraint check exactly when the declared totals equal the true
/// field sum and field sum of squares of the inputs.
pub proof fn lemma_dual_agg_verify_iff(t: Trace, txs: Seq<u32>, air: DualAggAir)
    requires
        is_dual_agg_trace(t, txs),
        t.height() == txs.len() + 1,
    ensures
        air.constraints_ok(t) <==> {
            &&& freduce_spec(air.expected_sum as int) == prefix_sum(txs, txs.len() as int)
            &&& freduce_spec(air.expected_sumsq as int) == prefix_sumsq(
                txs,
                txs.len() as int,
            )
        },
{
    let n = txs.len() as int;
    assert(t.entry(n, 0) == prefix_sum(txs, n));
    assert(t.entry(n, 1) == prefix_sumsq(txs, n));
    assert(first_row_ok(t));
    assert forall|i: int| 1 <= i < t.height() implies #[trigger] transition_ok(t, i) by {
        assert(t.entry(i, 0) == prefix_sum(txs, i));
        assert(t.entry(i - 1, 0) == prefix_sum(txs, i - 1));
    }
}

/// Trace generation is deterministic: any two traces generated from the
/// same input hold bit-identical data.
pub proof fn lemma_dual_agg_trace_deterministic(t1: Trace, t2: Trace, txs: Seq<u32>)
    requires
        is_dual_agg_trace(t1, txs),
        is_dual_agg_trace(t2, txs),
    ensures
        t1.width == t2.width,
        t1.values@ == t2.values@,
{
    assert forall|r: int, c: int|
        0 <= r < t1.height() && 0 <= c < t1.width implies t1.entry(r, c) == t2.entry(
        r,
        c,
    ) by {
        if r <= txs.len() {
            assert(t1.entry(r, 0) == prefix_sum(txs, r));
            assert(t2.entry(r, 0) == prefix_sum(txs, r));
        } else {
            assert(t1.entry(r, 0) == 0);
            assert(t2.entry(r, 0) == 0);
        }
        assert(c == 0 || c == 1 || c == 2);
    }
    lemma_entries_determine_trace(t1, t2);
}

/// Dual aggregation over an empty input: the trace is the all-zero
/// minimum-size trace and verifies against declared totals of zero.
pub proof fn lemma_dual_agg_empty_ok(t: Trace, air: DualAggAir)
    requires
        is_dual_agg_trace(t, Seq::<u32>::empty()),
        air.expected_sum == 0,
        air.expected_sumsq == 0,
    ensures
        air.constraints_ok(t),
{
    let txs = Seq::<u32>::empty();
    assert(t.entry(0, 0) == prefix_sum(txs, 0));
    assert(t.entry(0, 1) == prefix_sumsq(txs, 0));
    assert(t.entry(0, 2) == 0);
    assert forall|i: int| 1 <= i < t.height() implies #[trigger] transition_ok(t, i) by {
        if i == 1 {
            assert(t.entry(0, 0) == prefix_sum(txs, 0));
        } else {
            assert(t.entry(i - 1, 0) == 0);
        }
        assert(t.entry(i, 0) == 0);
    }
    assert(t.entry(t.height() - 1, 0) == 0);
}

} // verus!
