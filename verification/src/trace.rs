//! Execution traces: rectangular, row-major grids of field elements whose
//! row count is a power of two, at least 4. Padding rows are all zero.

use vstd::prelude::*;

use crate::field::P;

verus! {

/// Whether `n` is a power of two.
pub open spec fn is_pow2(n: int) -> bool
    decreases n,
{
    if n <= 0 {
        false
    } else if n == 1 {
        true
    } else {
        n % 2 == 0 && is_pow2(n / 2)
    }
}

/// The least power of two that is at least `n` (and at least 1).
pub open spec fn next_pow2(n: int) -> int
    decreases n,
{
    if n <= 1 {
        1
    } else {
        2 * next_pow2((n + 1) / 2)
    }
}

/// The padded row count for `rows` real rows: the next power of two,
/// floored at 4.
pub open spec fn pad_height(rows: int) -> int {
    if next_pow2(rows) < 4 {
        4
    } else {
        next_pow2(rows)
    }
}

pub proof fn lemma_next_pow2_props(n: int)
    requires
        0 <= n,
    ensures
        is_pow2(next_pow2(n)),
        next_pow2(n) >= n,
        next_pow2(n) >= 1,
        n <= 1 ==> next_pow2(n) == 1,
        n >= 2 ==> next_pow2(n) <= 2 * (n - 1),
    decreases n,
{
    if n >= 2 {
        let m = (n + 1) / 2;
        lemma_next_pow2_props(m);
    }
}

/// Two powers of two in strict order differ at least by a factor of two.
pub proof fn lemma_pow2_double_le(a: int, b: int)
    requires
        is_pow2(a),
        is_pow2(b),
        a < b,
    ensures
        2 * a <= b,
    decreases b,
{
    if a > 1 {
        lemma_pow2_double_le(a / 2, b / 2);
    }
}

/// `next_pow2(n)` is the only power of two that is at least `n` but whose
/// half is not.
pub proof fn lemma_next_pow2_unique(n: int, r: int)
    requires
        0 <= n,
        is_pow2(r),
        r >= n,
        r == 1 || r / 2 < n,
    ensures
        r == next_pow2(n),
{
    lemma_next_pow2_props(n);
    let e = next_pow2(n);
    if r < e {
        lemma_pow2_double_le(r, e);
        assert(e <= 2 * (n - 1));
    } else if e < r {
        lemma_pow2_double_le(e, r);
    }
}

/// An execution trace: `values` holds `height * width` field elements,
/// row-major.
pub struct Trace {
    pub width: usize,
    pub values: Vec<u32>,
}

impl Trace {
    /// The number of rows.
    pub open spec fn height(self) -> int {
        self.values@.len() as int / self.width as int
    }

    /// Well-formedness: a rectangular grid of canonical field elements
    /// whose row count is a power of two, at least 4.
    pub open spec fn wf(self) -> bool {
        &&& 0 < self.width
        &&& self.values@.len() == self.height() * self.width
        &&& is_pow2(self.height())
        &&& self.height() >= 4
        &&& forall|k: int|
            0 <= k < self.values@.len() ==> (self.values@[k] as int) < P
    }

    /// The entry in row `r`, column `c`, as a mathematical value.
    pub open spec fn entry(self, r: int, c: int) -> int {
        self.values@[r * self.width + c] as int
    }

    /// The number of rows.
    pub fn num_rows(&self) -> (r: usize)
        requires
            self.wf(),
        ensures
            r == self.height(),
    {
        proof {
            vstd::arithmetic::div_mod::lemma_div_by_multiple(
                self.height(),
                self.width as int,
            );
        }
        self.values.len() / self.width
    }

    /// Reads the entry in row `r`, column `c`.
    pub fn get(&self, r: usize, c: usize) -> (v: u32)
        requires
            self.wf(),
            r < self.height(),
            c < self.width,
        ensures
            v == self.entry(r as int, c as int),
            v < P,
    {
        let n = self.values.len();
        proof {
            lemma_row_col_index(self.height(), self.width as int, r as int, c as int);
            assert((r as int) * (self.width as int) + (c as int) < (n as int));
        }
        self.values[r * self.width + c]
    }
}

/// For `r < h` and `c < w`, the flat index `r * w + c` lies within a grid
/// of `h * w` entries.
pub proof fn lemma_row_col_index(h: int, w: int, r: int, c: int)
    requires
        0 < w,
        0 <= r < h,
        0 <= c < w,
    ensures
        0 <= r * w + c < h * w,
        (r * w + c) / w == r,
        (r * w + c) % w == c,
{
    vstd::arithmetic::mul::lemma_mul_inequality(r, h - 1, w);
    vstd::arithmetic::mul::lemma_mul_is_distributive_add_other_way(w, h - 1, 1);
    vstd::arithmetic::mul::lemma_mul_basics(w);
    vstd::arithmetic::mul::lemma_mul_inequality(0, r, w);
    vstd::arithmetic::div_mod::lemma_hoist_over_denominator(c, r, w as nat);
    vstd::arithmetic::div_mod::lemma_basic_div(c, w);
    vstd::arithmetic::mul::lemma_mul_is_commutative(w, r);
    vstd::arithmetic::div_mod::lemma_mod_multiples_vanish(r, c, w);
    vstd::arithmetic::div_mod::lemma_small_mod(c as nat, w as nat);
}

/// Two well-formed traces of the same shape with equal entries hold equal
/// flat data: entries determine the trace bit for bit.
pub proof fn lemma_entries_determine_trace(t1: Trace, t2: Trace)
    requires
        t1.wf(),
        t2.wf(),
        t1.width == t2.width,
        t1.height() == t2.height(),
        forall|r: int, c: int|
            0 <= r < t1.height() && 0 <= c < t1.width ==> t1.entry(r, c)
                == t2.entry(r, c),
    ensures
        t1.values@ == t2.values@,
{
    let w = t1.width as int;
    let h = t1.height();
    assert forall|k: int| 0 <= k < t1.values@.len() implies t1.values@[k]
        == t2.values@[k] by {
        vstd::arithmetic::div_mod::lemma_fundamental_div_mod(k, w);
        vstd::arithmetic::div_mod::lemma_mod_division_less_than_divisor(k, w);
        vstd::arithmetic::div_mod::lemma_div_pos_is_pos(k, w);
        vstd::arithmetic::div_mod::lemma_multiply_divide_lt(k, w, h);
        vstd::arithmetic::mul::lemma_mul_is_commutative(h, w);
        vstd::arithmetic::mul::lemma_mul_is_commutative(k / w, w);
        assert(t1.entry(k / w, k % w) == t2.entry(k / w, k % w));
    }
    assert(t1.values@ =~= t2.values@);
}

/// The least power of two that is at least `n` (and at least 1).
pub fn next_pow2_exec(n: usize) -> (r: usize)
    requires
        n <= 0x1000_0000,
    ensures
        r == next_pow2(n as int),
{
    let mut r: usize = 1;
    while r < n
        invariant
            n <= 0x1000_0000,
            1 <= r <= 0x2000_0000,
            is_pow2(r as int),
            r == 1 || r / 2 < n,
        decreases 2 * (n as int) - r as int,
    {
        proof {
            assert(is_pow2(2 * r as int));
        }
        r = r * 2;
    }
    proof {
        lemma_next_pow2_unique(n as int, r as int);
    }
    r
}

/// Reshapes `data` into a row-major matrix of the given width and extends
/// it with zero rows until the row count is a power of two, at least 4.
/// Returns the matrix together with its row count.
pub fn pad_to_pow2(data: Vec<u32>, width: usize) -> (res: (Trace, usize))
    requires
        0 < width <= 0x100,
        data@.len() as int % (width as int) == 0,
        data@.len() <= 0x40_0000,
        forall|k: int| 0 <= k < data@.len() ==> (data@[k] as int) < P,
    ensures
        res.0.wf(),
        res.0.width == width,
        res.1 == res.0.height(),
        res.0.height() == pad_height(data@.len() as int / width as int),
        forall|k: int| 0 <= k < data@.len() ==> res.0.values@[k] == data@[k],
        forall|k: int|
            data@.len() <= k < res.0.values@.len() ==> res.0.values@[k] == 0,
{
    let ghost orig = data@;
    let mut data = data;
    let len = data.len();
    let height: usize = len / width;
    proof {
        vstd::arithmetic::div_mod::lemma_fundamental_div_mod(
            orig.len() as int,
            width as int,
        );
        assert(height as int <= orig.len() as int) by (nonlinear_arith)
            requires
                height as int == orig.len() as int / width as int,
                1 <= width as int,
                0 <= orig.len() as int;
        lemma_next_pow2_props(height as int);
    }
    let mut padded: usize = next_pow2_exec(height);
    if padded < 4 {
        padded = 4;
    }
    proof {
        assert(is_pow2(4)) by {
            reveal_with_fuel(is_pow2, 4);
        }
        vstd::arithmetic::mul::lemma_mul_inequality(
            height as int,
            padded as int,
            width as int,
        );
        vstd::arithmetic::mul::lemma_mul_upper_bound(
            padded as int,
            0x80_0000,
            width as int,
            0x100,
        );
        vstd::arithmetic::mul::lemma_mul_is_commutative(height as int, width as int);
        vstd::arithmetic::mul::lemma_mul_is_commutative(padded as int, width as int);
    }
    let target: usize = padded * width;
    while data.len() < target
        invariant
            data@.len() <= target,
            orig.len() <= data@.len(),
            forall|k: int| 0 <= k < orig.len() ==> data@[k] == orig[k],
            forall|k: int| orig.len() <= k < data@.len() ==> data@[k] == 0,
        decreases target - data@.len(),
    {
        data.push(0);
    }
    proof {
        vstd::arithmetic::div_mod::lemma_div_by_multiple(padded as int, width as int);
    }
    let t = Trace { width, values: data };
    proof {
        assert(t.values@.len() == (padded as int) * (width as int));
        assert(t.height() == padded as int);
        assert forall|k: int| 0 <= k < t.values@.len() implies (t.values@[k] as int)
            < P by {
            if k < orig.len() {
                assert(t.values@[k] == orig[k]);
            }
        }
    }
    (t, padded)
}

} // verus!
