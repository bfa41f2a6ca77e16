//! Exact fractions, for rates and factors.
use vstd::prelude::*;

verus! {

/// The fraction `num / den`.
#[derive(Debug, Clone, Copy, PartialEq, Eq, Structural)]
pub struct Ratio {
    pub num: u64,
    pub den: u64,
}

impl Ratio {
    /// A fraction has a denominator other than zero.
    pub open spec fn wf(self) -> bool {
        self.den > 0
    }

    /// Whether `self` is smaller than `num / den`.
    pub open spec fn lt(self, num: int, den: int) -> bool {
        self.num * den < num * self.den
    }

    /// Whether `self` is greater than `num / den`.
    pub open spec fn gt(self, num: int, den: int) -> bool {
        self.num * den > num * self.den
    }

    /// Whether `self` is smaller than `num / den`.
    pub fn is_below(&self, num: u32, den: u32) -> (r: bool)
        ensures
            r == self.lt(num as int, den as int),
    {
        proof {
            lemma_product_fits(self.num, den);
            lemma_product_fits(self.den, num);
        }
        (self.num as u128) * (den as u128) < (num as u128) * (self.den as u128)
    }

    /// Whether `self` is greater than `num / den`.
    pub fn is_above(&self, num: u32, den: u32) -> (r: bool)
        ensures
            r == self.gt(num as int, den as int),
    {
        proof {
            lemma_product_fits(self.num, den);
            lemma_product_fits(self.den, num);
        }
        (self.num as u128) * (den as u128) > (num as u128) * (self.den as u128)
    }
}

proof fn lemma_product_fits(a: u64, b: u32)
    ensures
        0 <= a * b <= u128::MAX,
        0 <= b * a <= u128::MAX,
{
    assert(0 <= a * b <= 0xffff_ffff_ffff_ffff * 0xffff_ffff) by (nonlinear_arith)
        requires
            0 <= a <= 0xffff_ffff_ffff_ffff,
            0 <= b <= 0xffff_ffff,
    ;
    assert(b * a == a * b) by (nonlinear_arith);
}

/// Fractions compare as their cross products do; none is both below and above another, and one
/// that is neither equals it.
pub proof fn law_fractions_compare(a: &Ratio, num: u32, den: u32, below: bool, above: bool)
    requires
        a.wf(),
        den > 0,
        call_ensures(Ratio::is_below, (a, num, den), below),
        call_ensures(Ratio::is_above, (a, num, den), above),
    ensures
        a.den == den ==> (below <==> a.num < num) && (above <==> a.num > num),
        !(below && above),
        !below && !above <==> a.num * den == num * a.den,
        below <==> a.num * den < num * a.den,
{
    if a.den == den {
        let (x, y, d) = (a.num as int, num as int, den as int);
        assert((x * d < y * d) == (x < y) && (x * d > y * d) == (x > y)) by (nonlinear_arith)
            requires
                d > 0,
        ;
    }
}

/// How a fraction compares does not depend on how it is written.
pub proof fn law_equal_fractions_compare_alike(
    a: &Ratio,
    b: &Ratio,
    num: u32,
    den: u32,
    x: bool,
    y: bool,
)
    requires
        a.wf(),
        b.wf(),
        a.num * b.den == b.num * a.den,
        call_ensures(Ratio::is_below, (a, num, den), x),
        call_ensures(Ratio::is_below, (b, num, den), y),
    ensures
        x == y,
{
    let (p, q, r, s) = (a.num as int, a.den as int, b.num as int, b.den as int);
    let (n, d) = (num as int, den as int);
    assert((p * d < n * q) == (r * d < n * s)) by (nonlinear_arith)
        requires
            q > 0,
            s > 0,
            d >= 0,
            p * s == r * q,
    {
        assert((p * d) * s == (r * d) * q) by (nonlinear_arith)
            requires
                p * s == r * q,
        ;
        assert((n * q) * s == (n * s) * q) by (nonlinear_arith);
        assert((p * d < n * q) == ((p * d) * s < (n * q) * s)) by (nonlinear_arith)
            requires
                s > 0,
        ;
        assert((r * d < n * s) == ((r * d) * q < (n * s) * q)) by (nonlinear_arith)
            requires
                q > 0,
        ;
    }
}

} // verus!
