//! The Mersenne-31 prime field, represented canonically: every element is a
//! `u32` strictly below `P = 2^31 - 1`. All trace entries and constraint
//! arithmetic live in this field.

use vstd::prelude::*;

verus! {

/// The Mersenne-31 prime, `2^31 - 1`.
pub const P: u32 = 0x7fff_ffff;

/// Field addition, as a mathematical value.
pub open spec fn fadd_spec(a: int, b: int) -> int {
    (a + b) % (P as int)
}

/// Field multiplication, as a mathematical value.
pub open spec fn fmul_spec(a: int, b: int) -> int {
    (a * b) % (P as int)
}

/// Field subtraction, as a mathematical value.
pub open spec fn fsub_spec(a: int, b: int) -> int {
    (a - b) % (P as int)
}

/// The canonical injection of a machine integer into the field.
pub open spec fn freduce_spec(v: int) -> int {
    v % (P as int)
}

/// Reduces a machine integer to its canonical field representative.
pub fn freduce(v: u32) -> (r: u32)
    ensures
        r == freduce_spec(v as int),
        r < P,
{
    v % P
}

/// Field addition on canonical representatives.
pub fn fadd(a: u32, b: u32) -> (r: u32)
    requires
        a < P,
        b < P,
    ensures
        r == fadd_spec(a as int, b as int),
        r < P,
{
    let s: u64 = a as u64 + b as u64;
    let r: u64 = s % (P as u64);
    r as u32
}

/// Field subtraction on canonical representatives.
pub fn fsub(a: u32, b: u32) -> (r: u32)
    requires
        a < P,
        b < P,
    ensures
        r as int == fsub_spec(a as int, b as int),
        r < P,
{
    let s: u64 = a as u64 + (P - b) as u64;
    let r: u64 = s % (P as u64);
    proof {
        vstd::arithmetic::div_mod::lemma_mod_add_multiples_vanish(
            a as int - b as int,
            P as int,
        );
    }
    r as u32
}

/// Field multiplication on canonical representatives.
pub fn fmul(a: u32, b: u32) -> (r: u32)
    requires
        a < P,
        b < P,
    ensures
        r == fmul_spec(a as int, b as int),
        r < P,
{
    proof {
        let a1 = a as int;
        let b1 = b as int;
        assert(a1 * b1 < 0x4000_0000_0000_0000) by (nonlinear_arith)
            requires
                0 <= a1 < 0x8000_0000,
                0 <= b1 < 0x8000_0000;
    }
    let p: u64 = a as u64 * b as u64;
    let r: u64 = p % (P as u64);
    r as u32
}

} // verus!
