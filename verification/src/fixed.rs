//! Fixed-point numbers.
//!
//! Every length, speed, time span and axis value of the game is a [`Fixed`]:
//! a signed count of millionths. In contracts a `Fixed` is seen as that count,
//! an unbounded integer, and the arithmetic of the game is defined on such
//! integers. Executable code evaluates the same formulas in 128 bits and
//! narrows the outcome at the end, so a value that does not fit is detected
//! and never wrapped.

use vstd::prelude::*;

verus! {

/// Raw steps in one whole unit.
pub const SCALE: i64 = 1_000_000;

/// A fixed-point number with six decimal places.
#[derive(Clone, Copy, Debug, PartialEq, Eq, Structural)]
pub struct Fixed {
    /// The value in millionths.
    pub raw: i64,
}

impl View for Fixed {
    type V = int;

    open spec fn view(&self) -> int {
        self.raw as int
    }
}

/// Quotient of `n` by a positive `d`, rounded toward zero.
pub open spec fn trunc_div(n: int, d: int) -> int {
    if n >= 0 {
        n / d
    } else {
        -((-n) / d)
    }
}

/// Product of two fixed-point values, in raw steps, rounded toward zero.
pub open spec fn fx_mul(a: int, b: int) -> int {
    trunc_div(a * b, SCALE as int)
}

/// `v` confined to `lo..=hi`; the lower bound wins where the bounds cross.
pub open spec fn clamp(v: int, lo: int, hi: int) -> int {
    let capped = if v > hi { hi } else { v };
    if capped < lo { lo } else { capped }
}

/// Whether a raw value can be stored in a [`Fixed`].
pub open spec fn representable(v: int) -> bool {
    i64::MIN <= v <= i64::MAX
}

/// The product of two 64-bit values always fits in 128 bits.
pub proof fn lemma_product_bounds(a: int, b: int)
    requires
        representable(a),
        representable(b),
    ensures
        -0x4000_0000_0000_0000_0000_0000_0000_0000 <= a * b
            <= 0x4000_0000_0000_0000_0000_0000_0000_0000,
{
    assert(-0x4000_0000_0000_0000_0000_0000_0000_0000 <= a * b
        <= 0x4000_0000_0000_0000_0000_0000_0000_0000) by (nonlinear_arith)
        requires
            -0x8000_0000_0000_0000 <= a <= 0x7fff_ffff_ffff_ffff,
            -0x8000_0000_0000_0000 <= b <= 0x7fff_ffff_ffff_ffff,
    ;
}

/// A quotient rounded toward zero stays within `bound` when the numerator
/// stays within `bound * d`.
pub proof fn lemma_trunc_div_within(n: int, d: int, bound: int)
    requires
        d > 0,
        bound >= 0,
        -(bound * d) <= n <= bound * d,
    ensures
        -bound <= trunc_div(n, d) <= bound,
{
    if n >= 0 {
        assert(0 <= n / d <= bound) by (nonlinear_arith)
            requires
                d > 0,
                0 <= n <= bound * d,
        ;
    } else {
        assert(0 <= (-n) / d <= bound) by (nonlinear_arith)
            requires
                d > 0,
                0 <= -n <= bound * d,
        ;
    }
}

impl Fixed {
    /// The value with the given number of millionths.
    pub fn from_raw(raw: i64) -> (f: Fixed)
        ensures
            f@ == raw,
    {
        Fixed { raw }
    }

    /// The whole number `n`.
    pub fn from_int(n: i32) -> (f: Fixed)
        ensures
            f@ == n * SCALE,
    {
        Fixed { raw: (n as i64) * SCALE }
    }

    /// The value in millionths.
    pub fn raw(self) -> (r: i64)
        ensures
            r == self@,
    {
        self.raw
    }

    /// The value in millionths, widened for intermediate results.
    pub fn wide(self) -> (w: i128)
        ensures
            w == self@,
    {
        self.raw as i128
    }

    /// Stores a wide intermediate result, or reports that it does not fit.
    pub fn narrow(v: i128) -> (r: Option<Fixed>)
        ensures
            r is Some <==> representable(v as int),
            r matches Some(f) ==> f@ == v,
    {
        if v < i64::MIN as i128 || v > i64::MAX as i128 {
            None
        } else {
            Some(Fixed { raw: v as i64 })
        }
    }

    /// The fixed-point product, kept wide.
    pub fn times(self, other: Fixed) -> (p: i128)
        ensures
            p == fx_mul(self@, other@),
    {
        proof {
            lemma_product_bounds(self@, other@);
        }
        let wide: i128 = (self.raw as i128) * (other.raw as i128);
        wide / (SCALE as i128)
    }
}

} // verus!
