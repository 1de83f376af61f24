//! Transaction validity circuit: each row holds a transaction's four
//! fields plus a prover-supplied multiplicative inverse of the amount. The
//! constraint `amount * amount_inv = 1` rejects zero amounts, since zero
//! has no inverse in the field.

use vstd::prelude::*;

use p3_field::Field;
use p3_field::PrimeField32;

use crate::field::{fmul, fmul_spec, freduce, freduce_spec, P};
use crate::trace::{lemma_entries_determine_trace, pad_height, pad_to_pow2, Trace};

verus! {

/// The canonical representative of the multiplicative inverse that the
/// backend field computes for a nonzero canonical element.
pub uninterp spec fn inv_of(a: u32) -> u32;

/// Relies on p3_field::Field::inverse as implemented by
/// p3_mersenne_31::Mersenne31: for a nonzero element it returns the
/// multiplicative inverse, whose canonical representative (via
/// PrimeField32::as_canonical_u32) lies below the prime. The result
/// depends on the argument alone.
#[verifier::external_body]
fn field_inverse(a: u32) -> (r: u32)
    requires
        0 < a < P,
    ensures
        r == inv_of(a),
        r < P,
        fmul_spec(a as int, r as int) == 1,
{
    p3_mersenne_31::Mersenne31::new(a).inverse().as_canonical_u32()
}

/// The shape of a generated transaction validity trace: one row per
/// transaction, holding its four fields and the inverse of its amount (or
/// zero for a zero amount); padding rows are zero.
pub open spec fn is_tx_trace(t: Trace, txs: Seq<[u32; 4]>) -> bool {
    &&& t.wf()
    &&& t.width == 5
    &&& t.height() == pad_height(txs.len() as int)
    &&& forall|i: int|
        0 <= i < txs.len() ==> {
            &&& #[trigger] t.entry(i, 0) == freduce_spec(txs[i]@[0] as int)
            &&& t.entry(i, 1) == freduce_spec(txs[i]@[1] as int)
            &&& t.entry(i, 2) == freduce_spec(txs[i]@[2] as int)
            &&& t.entry(i, 3) == freduce_spec(txs[i]@[3] as int)
            &&& t.entry(i, 4) == if freduce_spec(txs[i]@[2] as int) == 0 {
                0int
            } else {
                inv_of(((txs[i]@[2] as int) % (P as int)) as u32) as int
            }
            &&& freduce_spec(txs[i]@[2] as int) != 0 ==> fmul_spec(
                freduce_spec(txs[i]@[2] as int),
                t.entry(i, 4),
            ) == 1
        }
    &&& forall|i: int, j: int|
        txs.len() <= i < t.height() && 0 <= j < 5 ==> #[trigger] t.entry(i, j) == 0
}

/// Constraint system for transaction validity: 5 columns, no public
/// parameters beyond the trace height.
pub struct TxValidateAir {
    pub num_rows: usize,
}

/// The per-row constraint: the amount times its supplied inverse is one.
pub open spec fn tx_row_ok(t: Trace, i: int) -> bool {
    fmul_spec(t.entry(i, 2), t.entry(i, 4)) == 1
}

impl TxValidateAir {
    /// The fixed column count of this circuit.
    pub fn width(&self) -> (w: usize)
        ensures
            w == 5,
    {
        5
    }

    /// The constraints this circuit imposes on a trace: every row but the
    /// last satisfies the nonzero-amount product constraint.
    pub open spec fn constraints_ok(self, t: Trace) -> bool {
        forall|i: int| 0 <= i < t.height() - 1 ==> #[trigger] tx_row_ok(t, i)
    }

    /// Evaluates every constraint of this circuit directly on a trace.
    pub fn check_trace(&self, t: &Trace) -> (ok: bool)
        requires
            t.wf(),
            t.width == 5,
        ensures
            ok == self.constraints_ok(*t),
    {
        let h = t.num_rows();
        let mut ok = true;
        let mut i: usize = 0;
        while i < h - 1
            invariant
                t.wf(),
                t.width == 5,
                h == t.height(),
                i <= h - 1,
                ok == (forall|r: int| 0 <= r < i ==> #[trigger] tx_row_ok(*t, r)),
            decreases h - 1 - i,
        {
            let row = fmul(t.get(i, 2), t.get(i, 4)) == 1;
            proof {
                assert(row == tx_row_ok(*t, i as int));
            }
            ok = ok && row;
            i = i + 1;
        }
        ok
    }
}

/// Builds the transaction validity trace: one row per transaction with its
/// fields and the inverse of its amount (zero when the amount is zero in
/// the field), padded with zero rows to a power-of-two height.
pub fn generate_tx_validate_trace_with_inv(txs: &[[u32; 4]]) -> (res: (Trace, usize))
    requires
        txs@.len() <= 0x8_0000,
    ensures
        is_tx_trace(res.0, txs@),
        res.1 == res.0.height(),
{
    let n = txs.len();
    let mut data: Vec<u32> = Vec::new();
    let mut i: usize = 0;
    while i < n
        invariant
            n == txs@.len(),
            n <= 0x8_0000,
            i <= n,
            data@.len() == 5 * i,
            forall|k: int| 0 <= k < data@.len() ==> (#[trigger] data@[k] as int) < P,
            forall|r: int|
                0 <= r < i ==> {
                    &&& data@[5 * r] as int == #[trigger] freduce_spec(txs@[r]@[0] as int)
                    &&& data@[5 * r + 1] as int == freduce_spec(txs@[r]@[1] as int)
                    &&& data@[5 * r + 2] as int == freduce_spec(txs@[r]@[2] as int)
                    &&& data@[5 * r + 3] as int == freduce_spec(txs@[r]@[3] as int)
                    &&& data@[5 * r + 4] as int == if freduce_spec(txs@[r]@[2] as int)
                        == 0 {
                        0int
                    } else {
                        inv_of(((txs@[r]@[2] as int) % (P as int)) as u32) as int
                    }
                    &&& freduce_spec(txs@[r]@[2] as int) != 0 ==> fmul_spec(
                        freduce_spec(txs@[r]@[2] as int),
                        data@[5 * r + 4] as int,
                    ) == 1
                }
        decreases n - i,
    {
        let tx = txs[i];
        let sender = freduce(tx[0]);
        let receiver = freduce(tx[1]);
        let amount = freduce(tx[2]);
        let nonce = freduce(tx[3]);
        let inv = if amount != 0 {
            field_inverse(amount)
        } else {
            0
        };
        let ghost pre = data@;
        data.push(sender);
        data.push(receiver);
        data.push(amount);
        data.push(nonce);
        data.push(inv);
        proof {
            assert(data@ == pre.push(sender).push(receiver).push(amount).push(nonce).push(
                inv,
            ));
            assert(data@[5 * (i as int)] == sender);
            assert(data@[5 * (i as int) + 1] == receiver);
            assert(data@[5 * (i as int) + 2] == amount);
            assert(data@[5 * (i as int) + 3] == nonce);
            assert(data@[5 * (i as int) + 4] == inv);
            assert(forall|k: int| 0 <= k < pre.len() ==> #[trigger] data@[k] == pre[k]);
            assert(tx@ == txs@[i as int]@);
            assert(sender as int == freduce_spec(txs@[i as int]@[0] as int));
            assert(receiver as int == freduce_spec(txs@[i as int]@[1] as int));
            assert(amount as int == freduce_spec(txs@[i as int]@[2] as int));
            assert(nonce as int == freduce_spec(txs@[i as int]@[3] as int));
            if amount != 0 {
                assert(amount == ((txs@[i as int]@[2] as int) % (P as int)) as u32);
                assert(inv == inv_of(amount));
                assert(fmul_spec(freduce_spec(txs@[i as int]@[2] as int), inv as int)
                    == 1);
            } else {
                assert(inv == 0);
            }
            assert forall|r: int| 0 <= r < (i as int) + 1 implies {
                &&& data@[5 * r] as int == freduce_spec(txs@[r]@[0] as int)
                &&& data@[5 * r + 1] as int == freduce_spec(txs@[r]@[1] as int)
                &&& data@[5 * r + 2] as int == freduce_spec(txs@[r]@[2] as int)
                &&& data@[5 * r + 3] as int == freduce_spec(txs@[r]@[3] as int)
                &&& data@[5 * r + 4] as int == if freduce_spec(txs@[r]@[2] as int) == 0 {
                    0int
                } else {
                    inv_of(((txs@[r]@[2] as int) % (P as int)) as u32) as int
                }
                &&& freduce_spec(txs@[r]@[2] as int) != 0 ==> fmul_spec(
                    freduce_spec(txs@[r]@[2] as int),
                    data@[5 * r + 4] as int,
                ) == 1
            } by {
                if r < i as int {
                    assert(pre[5 * r] as int == freduce_spec(txs@[r]@[0] as int));
                    assert(data@[5 * r] == pre[5 * r]);
                    assert(data@[5 * r + 1] == pre[5 * r + 1]);
                    assert(data@[5 * r + 2] == pre[5 * r + 2]);
                    assert(data@[5 * r + 3] == pre[5 * r + 3]);
                    assert(data@[5 * r + 4] == pre[5 * r + 4]);
                }
            }
        }
        i = i + 1;
    }
    proof {
        vstd::arithmetic::div_mod::lemma_mod_multiples_basic(n as int, 5int);
    }
    let (t, h) = pad_to_pow2(data, 5);
    proof {
        let ghost ts = txs@;
        assert forall|i: int| 0 <= i < ts.len() implies {
            &&& t.entry(i, 0) == freduce_spec(ts[i]@[0] as int)
            &&& t.entry(i, 1) == freduce_spec(ts[i]@[1] as int)
            &&& t.entry(i, 2) == freduce_spec(ts[i]@[2] as int)
            &&& t.entry(i, 3) == freduce_spec(ts[i]@[3] as int)
            &&& t.entry(i, 4) == if freduce_spec(ts[i]@[2] as int) == 0 {
                0int
            } else {
                inv_of(((ts[i]@[2] as int) % (P as int)) as u32) as int
            }
            &&& freduce_spec(ts[i]@[2] as int) != 0 ==> fmul_spec(
                freduce_spec(ts[i]@[2] as int),
                t.entry(i, 4),
            ) == 1
        } by {
            assert(data@[5 * i] as int == freduce_spec(ts[i]@[0] as int));
            assert(t.values@[5 * i] == data@[5 * i]);
            assert(t.values@[5 * i + 1] == data@[5 * i + 1]);
            assert(t.values@[5 * i + 2] == data@[5 * i + 2]);
            assert(t.values@[5 * i + 3] == data@[5 * i + 3]);
            assert(t.values@[5 * i + 4] == data@[5 * i + 4]);
        }
        assert forall|i: int, j: int|
            ts.len() <= i < t.height() && 0 <= j < 5 implies #[trigger] t.entry(i, j)
            == 0 by {
            assert(t.values@.len() == t.height() * 5);
            assert(5 * i + j < t.values@.len());
            assert(5 * i + j >= data@.len());
            assert(t.values@[5 * i + j] == 0);
        }
    }
    (t, h)
}

/// A generated transaction validity trace passes the constraint check
/// exactly when every checked row is a real transaction with a nonzero
/// amount: all amounts among the first `height - 1` rows are nonzero in
/// the field, and the padding added at most the one unchecked row.
pub proof fn lemma_tx_validate_verify_iff(t: Trace, txs: Seq<[u32; 4]>, air: TxValidateAir)
    requires
        is_tx_trace(t, txs),
    ensures
        air.constraints_ok(t) <==> {
            &&& txs.len() >= t.height() - 1
            &&& forall|i: int|
                0 <= i < t.height() - 1 ==> freduce_spec((#[trigger] txs[i])@[2] as int)
                    != 0
        },
{
    let h = t.height();
    if air.constraints_ok(t) {
        if txs.len() < h - 1 {
            let i = txs.len() as int;
            assert(t.entry(i, 2) == 0);
            assert(t.entry(i, 4) == 0);
            assert(tx_row_ok(t, i));
            assert(false);
        }
        assert forall|i: int|
            0 <= i < h - 1 implies freduce_spec((#[trigger] txs[i])@[2] as int) != 0 by {
            assert(tx_row_ok(t, i));
            assert(t.entry(i, 0) == freduce_spec(txs[i]@[0] as int));
            if freduce_spec(txs[i]@[2] as int) == 0 {
                assert(t.entry(i, 2) == 0);
                assert(t.entry(i, 4) == 0);
                assert(false);
            }
        }
    }
    if txs.len() >= h - 1 && (forall|i: int|
        0 <= i < h - 1 ==> freduce_spec((#[trigger] txs[i])@[2] as int) != 0) {
        assert forall|i: int| 0 <= i < h - 1 implies #[trigger] tx_row_ok(t, i) by {
            assert(t.entry(i, 0) == freduce_spec(txs[i]@[0] as int));
            assert(freduce_spec(txs[i]@[2] as int) != 0);
        }
    }
}

/// A zero amount in any checked row makes verification fail, whatever
/// inverse the prover supplies: zero times anything is zero, never one.
pub proof fn lemma_tx_zero_amount_fails(t: Trace, i: int, air: TxValidateAir)
    requires
        t.wf(),
        t.width == 5,
        0 <= i < t.height() - 1,
        t.entry(i, 2) == 0,
    ensures
        !air.constraints_ok(t),
{
    assert(fmul_spec(0, t.entry(i, 4)) == 0);
    assert(!tx_row_ok(t, i));
}

/// Trace generation is deterministic: any two traces generated from the
/// same input hold bit-identical data.
pub proof fn lemma_tx_trace_deterministic(t1: Trace, t2: Trace, txs: Seq<[u32; 4]>)
    requires
        is_tx_trace(t1, txs),
        is_tx_trace(t2, txs),
    ensures
        t1.width == t2.width,
        t1.values@ == t2.values@,
{
    assert forall|r: int, c: int|
        0 <= r < t1.height() && 0 <= c < t1.width implies t1.entry(r, c) == t2.entry(
        r,
        c,
    ) by {
        if r < txs.len() {
            assert(t1.entry(r, 0) == freduce_spec(txs[r]@[0] as int));
            assert(t2.entry(r, 0) == freduce_spec(txs[r]@[0] as int));
            assert(c == 0 || c == 1 || c == 2 || c == 3 || c == 4);
        } else {
            assert(t1.entry(r, c) == 0);
            assert(t2.entry(r, c) == 0);
        }
    }
    lemma_entries_determine_trace(t1, t2);
}

} // verus!
