//! Fixed-point fractions in basis points.

use vstd::prelude::*;

verus! {

/// The number of basis points in one whole.
pub const BASIS_POINTS: u16 = 10_000;

/// `floor(amount * bps / 10000)`: the part of `amount` that `bps` basis
/// points stand for, rounded down.
pub open spec fn portion(amount: int, bps: int) -> int {
    amount * bps / 10_000
}

/// `floor(10000 * num / den)`: the ratio `num / den` in basis points,
/// rounded down.
pub open spec fn ratio_bps(num: int, den: int) -> int {
    num * 10_000 / den
}

/// A part of an amount lies between 0 and the amount: no basis point of it
/// is nothing, and all ten thousand are the amount itself.
pub proof fn lemma_portion_bounds(amount: int, bps: int)
    requires
        0 <= amount,
        0 <= bps <= 10_000,
    ensures
        0 <= portion(amount, bps) <= amount,
        portion(amount, 0) == 0,
        portion(amount, 10_000) == amount,
{
    assert(0 <= amount * bps <= amount * 10_000) by (nonlinear_arith)
        requires
            0 <= amount,
            0 <= bps <= 10_000,
    ;
}

/// `portion` grows with the fraction and with the amount.
pub proof fn lemma_portion_monotonic(a1: int, b1: int, a2: int, b2: int)
    requires
        0 <= a1 <= a2,
        0 <= b1 <= b2,
    ensures
        portion(a1, b1) <= portion(a2, b2),
{
    assert(a1 * b1 <= a2 * b2) by (nonlinear_arith)
        requires
            0 <= a1 <= a2,
            0 <= b1 <= b2,
    ;
}

/// A ratio of `num <= den` lies between 0 and one whole, and reaches one
/// whole only where `num` is `den`.
pub proof fn lemma_ratio_bounds(num: int, den: int)
    requires
        0 <= num <= den,
        0 < den,
    ensures
        0 <= ratio_bps(num, den) <= 10_000,
        num == den ==> ratio_bps(num, den) == 10_000,
        num < den ==> ratio_bps(num, den) < 10_000,
{
    assert(0 <= num * 10_000 / den <= 10_000 && (num == den ==> num * 10_000 / den == 10_000) && (
    num < den ==> num * 10_000 / den < 10_000)) by (nonlinear_arith)
        requires
            0 <= num <= den,
            0 < den,
    ;
}

/// `ratio_bps` grows with its numerator.
pub proof fn lemma_ratio_monotonic(n1: int, n2: int, den: int)
    requires
        0 <= n1 <= n2,
        0 < den,
    ensures
        ratio_bps(n1, den) <= ratio_bps(n2, den),
{
    assert(n1 * 10_000 / den <= n2 * 10_000 / den) by (nonlinear_arith)
        requires
            0 <= n1 <= n2,
            0 < den,
    ;
}

/// A fraction between 0 and 1, in basis points (0 to 10000).
#[derive(Clone, Copy, Debug, PartialEq, Eq, Structural)]
pub struct Fraction {
    bps: u16,
}

impl View for Fraction {
    type V = int;

    /// The fraction in basis points.
    closed spec fn view(&self) -> int {
        self.bps as int
    }
}

impl Fraction {
    /// A fraction is well formed when it is at most one whole.
    pub open spec fn wf(&self) -> bool {
        0 <= self@ <= 10_000
    }

    /// The fraction of `bps` basis points, if that is at most one whole.
    pub fn new(bps: u16) -> (r: Option<Fraction>)
        ensures
            r is Some <==> bps <= 10_000,
            r matches Some(f) ==> f.wf() && f@ == bps,
    {
        if bps <= BASIS_POINTS {
            Some(Fraction { bps })
        } else {
            None
        }
    }

    /// The fraction of `bps` basis points.
    pub(crate) fn from_bps(bps: u16) -> (r: Fraction)
        requires
            bps <= 10_000,
        ensures
            r.wf(),
            r@ == bps,
    {
        Fraction { bps }
    }

    /// Nothing.
    pub fn zero() -> (r: Fraction)
        ensures
            r.wf(),
            r@ == 0,
    {
        Fraction { bps: 0 }
    }

    /// One whole.
    pub fn one() -> (r: Fraction)
        ensures
            r.wf(),
            r@ == 10_000,
    {
        Fraction { bps: BASIS_POINTS }
    }

    /// `num / den` in basis points, rounded down.
    pub(crate) fn ratio(num: u64, den: u64) -> (r: Fraction)
        requires
            0 < den,
            num <= den,
        ensures
            r.wf(),
            r@ == ratio_bps(num as int, den as int),
    {
        proof {
            lemma_ratio_bounds(num as int, den as int);
            assert(num * 10_000 <= u128::MAX) by (nonlinear_arith)
                requires
                    0 <= num <= u64::MAX,
            ;
        }
        let scaled: u128 = (num as u128) * 10_000u128;
        let bps: u128 = scaled / (den as u128);
        Fraction { bps: bps as u16 }
    }

    /// `num / den` in basis points, rounded down. There is no such fraction
    /// when `den` is zero or `num` exceeds `den`.
    pub fn from_ratio(num: u64, den: u64) -> (r: Option<Fraction>)
        ensures
            r is Some <==> 0 < den && num <= den,
            r matches Some(f) ==> f.wf() && f@ == ratio_bps(num as int, den as int),
    {
        if den == 0 || num > den {
            None
        } else {
            Some(Fraction::ratio(num, den))
        }
    }

    /// The fraction in basis points.
    pub fn bps(&self) -> (r: u16)
        ensures
            r == self@,
    {
        self.bps
    }

    /// The part of `amount` that this fraction stands for, rounded down.
    pub fn of(&self, amount: u64) -> (r: u64)
        requires
            self.wf(),
        ensures
            r == portion(amount as int, self@),
            r <= amount,
    {
        proof {
            lemma_portion_bounds(amount as int, self@);
            assert(amount * self.bps <= u128::MAX) by (nonlinear_arith)
                requires
                    0 <= amount <= u64::MAX,
                    0 <= self.bps <= 10_000,
            ;
        }
        let scaled: u128 = (amount as u128) * (self.bps as u128);
        let part: u128 = scaled / 10_000u128;
        part as u64
    }
}

} // verus!
