//! Saturating fixed-point scalars.
//!
//! Every quantity of the renderer (coordinates, depths, intensities, colour
//! channels) is a [`Fixed`]: a signed 64-bit integer that counts units of
//! 1/65536. Each operation computes the exact integer result, rounds a
//! quotient toward zero and then clamps into the 64-bit range, so no operation
//! can overflow or fail, and every result is a function of the operands alone.
use vstd::prelude::*;

verus! {

/// The raw value of the number one.
pub const ONE_RAW: i64 = 65536;

/// `v` clamped into the range of the raw values.
pub open spec fn saturate(v: int) -> int {
    if v < i64::MIN {
        i64::MIN as int
    } else if v > i64::MAX {
        i64::MAX as int
    } else {
        v
    }
}

/// The absolute value of `v`.
pub open spec fn magnitude(v: int) -> int {
    if v < 0 {
        -v
    } else {
        v
    }
}

/// The quotient of `n` by `d`, rounded toward zero.
pub open spec fn div_toward_zero(n: int, d: int) -> int
    recommends
        d != 0,
{
    if (n >= 0) == (d > 0) {
        magnitude(n) / magnitude(d)
    } else {
        -(magnitude(n) / magnitude(d))
    }
}

/// Whether `r` is the integer square root of `n`.
pub open spec fn is_int_sqrt(n: int, r: int) -> bool {
    r >= 0 && r * r <= n && n < (r + 1) * (r + 1)
}

/// The integer square root of `n`: the largest `r` with `r * r <= n`.
pub open spec fn int_sqrt(n: int) -> int
    recommends
        n >= 0,
{
    choose|r: int| is_int_sqrt(n, r)
}

/// A fixed-point number: `raw` counts units of 1/65536.
#[derive(Clone, Copy, Debug, PartialEq, Eq, Structural)]
pub struct Fixed {
    pub raw: i64,
}

impl Fixed {
    /// The number whose raw value is `v` clamped into range.
    pub open spec fn clamped(v: int) -> Fixed {
        Fixed { raw: saturate(v) as i64 }
    }

    /// The number zero.
    pub open spec fn zero_spec() -> Fixed {
        Fixed { raw: 0 }
    }

    /// The number one.
    pub open spec fn one_spec() -> Fixed {
        Fixed { raw: ONE_RAW }
    }

    /// The largest number, which stands for every larger one.
    pub open spec fn max_spec() -> Fixed {
        Fixed { raw: i64::MAX }
    }

    /// The smallest number, which stands for every smaller one.
    pub open spec fn min_spec() -> Fixed {
        Fixed { raw: i64::MIN }
    }

    /// The whole number `v`, clamped into range.
    pub open spec fn from_int_spec(v: int) -> Fixed {
        Fixed::clamped(v * ONE_RAW)
    }

    /// The sum, clamped into range.
    pub open spec fn add_spec(self, rhs: Fixed) -> Fixed {
        Fixed::clamped(self.raw + rhs.raw)
    }

    /// The difference, clamped into range.
    pub open spec fn sub_spec(self, rhs: Fixed) -> Fixed {
        Fixed::clamped(self.raw - rhs.raw)
    }

    /// The negation; that of the smallest number is the largest.
    pub open spec fn neg_spec(self) -> Fixed {
        Fixed::clamped(-self.raw)
    }

    /// The absolute value; that of the smallest number is the largest.
    pub open spec fn abs_spec(self) -> Fixed {
        Fixed::clamped(magnitude(self.raw as int))
    }

    /// The product, rounded toward zero and clamped into range.
    #[verifier::opaque]
    pub open spec fn mul_spec(self, rhs: Fixed) -> Fixed {
        Fixed::clamped(div_toward_zero(self.raw * rhs.raw, ONE_RAW as int))
    }

    /// Division; a zero divisor gives the extreme value with the sign of the
    /// dividend, and zero for zero by zero.
    #[verifier::opaque]
    pub open spec fn div_spec(self, rhs: Fixed) -> Fixed {
        if rhs.raw == 0 {
            if self.raw > 0 {
                Fixed::max_spec()
            } else if self.raw < 0 {
                Fixed::min_spec()
            } else {
                Fixed::zero_spec()
            }
        } else {
            Fixed::clamped(div_toward_zero(self.raw * ONE_RAW, rhs.raw as int))
        }
    }

    /// The square root, rounded down; zero for a negative number.
    #[verifier::opaque]
    pub open spec fn sqrt_spec(self) -> Fixed {
        if self.raw <= 0 {
            Fixed::zero_spec()
        } else {
            Fixed::clamped(int_sqrt(self.raw * ONE_RAW))
        }
    }

    /// `self` raised to the power `n` by squaring and multiplying.
    pub open spec fn pow_spec(self, n: nat) -> Fixed
        decreases n,
    {
        if n == 0 {
            Fixed::one_spec()
        } else if n % 2 == 0 {
            let half = self.pow_spec(n / 2);
            half.mul_spec(half)
        } else {
            self.mul_spec(self.pow_spec((n - 1) as nat))
        }
    }

    /// `self` raised to a signed power: a negative exponent gives the
    /// reciprocal of the positive power.
    pub open spec fn powi_spec(self, e: int) -> Fixed {
        if e >= 0 {
            self.pow_spec(e as nat)
        } else {
            Fixed::one_spec().div_spec(self.pow_spec((-e) as nat))
        }
    }

    /// The integer part, rounded toward zero.
    pub open spec fn trunc_spec(self) -> int {
        div_toward_zero(self.raw as int, ONE_RAW as int)
    }

    /// The integer part clamped into the range of `i32`.
    pub open spec fn to_int_spec(self) -> int {
        let t = self.trunc_spec();
        if t < i32::MIN {
            i32::MIN as int
        } else if t > i32::MAX {
            i32::MAX as int
        } else {
            t
        }
    }

    /// The largest integer that is not above `self`.
    pub open spec fn floor_spec(self) -> int {
        self.raw as int / ONE_RAW as int
    }

    /// The number of `raw` units of 1/65536.
    pub fn from_raw(raw: i64) -> (r: Fixed)
        ensures
            r.raw == raw,
    {
        Fixed { raw }
    }

    /// The number zero.
    pub fn zero() -> (r: Fixed)
        ensures
            r == Fixed::zero_spec(),
    {
        Fixed { raw: 0 }
    }

    /// The number one.
    pub fn one() -> (r: Fixed)
        ensures
            r == Fixed::one_spec(),
    {
        Fixed { raw: ONE_RAW }
    }

    /// The largest number.
    pub fn max_value() -> (r: Fixed)
        ensures
            r == Fixed::max_spec(),
    {
        Fixed { raw: i64::MAX }
    }

    /// The smallest number.
    pub fn min_value() -> (r: Fixed)
        ensures
            r == Fixed::min_spec(),
    {
        Fixed { raw: i64::MIN }
    }

    /// The whole number `v`, which every `i32` is exactly.
    pub fn from_int(v: i32) -> (r: Fixed)
        ensures
            r == Fixed::from_int_spec(v as int),
            r.raw == v * ONE_RAW,
    {
        let wide: i64 = v as i64;
        Fixed { raw: wide * ONE_RAW }
    }

    /// The whole number `v`, clamped into range.
    pub fn from_i64(v: i64) -> (r: Fixed)
        ensures
            r == Fixed::from_int_spec(v as int),
    {
        Fixed::clamp_wide(v as i128 * 65536)
    }

    /// The quotient `n / d` of two whole numbers.
    pub fn from_ratio(n: i32, d: i32) -> (r: Fixed)
        ensures
            r == Fixed::from_int_spec(n as int).div_spec(Fixed::from_int_spec(d as int)),
    {
        Fixed::from_int(n).div(Fixed::from_int(d))
    }

    /// The number whose raw value is `v` clamped into range.
    fn clamp_wide(v: i128) -> (r: Fixed)
        ensures
            r == Fixed::clamped(v as int),
    {
        if v < i64::MIN as i128 {
            Fixed { raw: i64::MIN }
        } else if v > i64::MAX as i128 {
            Fixed { raw: i64::MAX }
        } else {
            Fixed { raw: v as i64 }
        }
    }

    /// The sum, clamped into range.
    pub fn add(self, rhs: Fixed) -> (r: Fixed)
        ensures
            r == self.add_spec(rhs),
    {
        Fixed::clamp_wide(self.raw as i128 + rhs.raw as i128)
    }

    /// The difference, clamped into range.
    pub fn sub(self, rhs: Fixed) -> (r: Fixed)
        ensures
            r == self.sub_spec(rhs),
    {
        Fixed::clamp_wide(self.raw as i128 - rhs.raw as i128)
    }

    /// The negation, clamped into range.
    pub fn neg(self) -> (r: Fixed)
        ensures
            r == self.neg_spec(),
    {
        Fixed::clamp_wide(-(self.raw as i128))
    }

    /// The absolute value, clamped into range.
    pub fn abs(self) -> (r: Fixed)
        ensures
            r == self.abs_spec(),
    {
        if self.raw < 0 {
            Fixed::clamp_wide(-(self.raw as i128))
        } else {
            self
        }
    }

    /// The product, rounded toward zero and clamped into range.
    pub fn mul(self, rhs: Fixed) -> (r: Fixed)
        ensures
            r == self.mul_spec(rhs),
    {
        proof {
            reveal(Fixed::mul_spec);
        }
        let a: i128 = self.raw as i128;
        let b: i128 = rhs.raw as i128;
        assert(-0x4000_0000_0000_0000_0000_0000_0000_0000 <= a * b
            <= 0x4000_0000_0000_0000_0000_0000_0000_0000) by (nonlinear_arith)
            requires
                -0x8000_0000_0000_0000 <= a < 0x8000_0000_0000_0000,
                -0x8000_0000_0000_0000 <= b < 0x8000_0000_0000_0000,
        ;
        let p: i128 = a * b;
        Fixed::clamp_wide(p / 65536)
    }

    /// The quotient, rounded toward zero and clamped into range. A zero
    /// divisor gives the extreme value with the sign of the dividend, and zero
    /// for zero by zero.
    pub fn div(self, rhs: Fixed) -> (r: Fixed)
        ensures
            r == self.div_spec(rhs),
    {
        proof {
            reveal(Fixed::div_spec);
        }
        if rhs.raw == 0 {
            if self.raw > 0 {
                Fixed { raw: i64::MAX }
            } else if self.raw < 0 {
                Fixed { raw: i64::MIN }
            } else {
                Fixed { raw: 0 }
            }
        } else {
            let n: i128 = self.raw as i128 * 65536;
            let d: i128 = rhs.raw as i128;
            let same_sign = (n >= 0) == (d > 0);
            let mn: i128 = if n < 0 { -n } else { n };
            let md: i128 = if d < 0 { -d } else { d };
            let q: i128 = mn / md;
            if same_sign {
                Fixed::clamp_wide(q)
            } else {
                Fixed::clamp_wide(-q)
            }
        }
    }

    /// The square root, rounded down; zero for a negative number.
    pub fn sqrt(self) -> (r: Fixed)
        ensures
            r == self.sqrt_spec(),
            r.raw >= 0,
    {
        proof {
            reveal(Fixed::sqrt_spec);
        }
        if self.raw <= 0 {
            return Fixed { raw: 0 };
        }
        let n: u128 = self.raw as u128 * 65536;
        let mut lo: u128 = 0;
        let mut hi: u128 = 0x100_0000_0000;
        assert(n < hi * hi) by (nonlinear_arith)
            requires
                n < 0x8000_0000_0000_0000 * 65536,
                hi == 0x100_0000_0000,
        ;
        assert(lo * lo <= n) by (nonlinear_arith)
            requires
                lo == 0,
                n >= 0,
        ;
        while hi - lo > 1
            invariant
                lo < hi <= 0x100_0000_0000,
                lo * lo <= n < hi * hi,
            decreases hi - lo,
        {
            let mid: u128 = lo + (hi - lo) / 2;
            assert(mid * mid < 0x1_0000_0000_0000_0000_0000) by (nonlinear_arith)
                requires
                    mid < 0x100_0000_0000,
            ;
            if mid * mid <= n {
                lo = mid;
            } else {
                hi = mid;
            }
        }
        proof {
            assert(hi == lo + 1);
            lemma_int_sqrt_unique(n as int, lo as int);
        }
        Fixed { raw: lo as i64 }
    }

    /// `self` raised to the power `n`.
    pub fn pow(self, n: u32) -> (r: Fixed)
        ensures
            r == self.pow_spec(n as nat),
        decreases n,
    {
        if n == 0 {
            Fixed { raw: ONE_RAW }
        } else if n % 2 == 0 {
            let half = self.pow(n / 2);
            half.mul(half)
        } else {
            self.mul(self.pow(n - 1))
        }
    }

    /// `self` raised to the signed power `e`.
    pub fn powi(self, e: i32) -> (r: Fixed)
        ensures
            r == self.powi_spec(e as int),
    {
        if e >= 0 {
            self.pow(e as u32)
        } else {
            let wide: i64 = -(e as i64);
            Fixed::one().div(self.pow(wide as u32))
        }
    }

    /// The integer part, rounded toward zero and clamped into `i32`.
    pub fn to_int(self) -> (r: i32)
        ensures
            r == self.to_int_spec(),
    {
        let t: i64 = self.raw / ONE_RAW;
        if t < i32::MIN as i64 {
            i32::MIN
        } else if t > i32::MAX as i64 {
            i32::MAX
        } else {
            t as i32
        }
    }

    /// The largest integer that is not above `self`.
    pub fn floor(self) -> (r: i64)
        ensures
            r == self.floor_spec(),
    {
        let t: i64 = self.raw / ONE_RAW;
        if self.raw % ONE_RAW < 0 {
            t - 1
        } else {
            t
        }
    }

    /// Whether `self` is smaller than `rhs`.
    pub fn lt(self, rhs: Fixed) -> (r: bool)
        ensures
            r == (self.raw < rhs.raw),
    {
        self.raw < rhs.raw
    }

    /// Whether `self` is not larger than `rhs`.
    pub fn le(self, rhs: Fixed) -> (r: bool)
        ensures
            r == (self.raw <= rhs.raw),
    {
        self.raw <= rhs.raw
    }

    /// Whether `self` is larger than zero.
    pub fn is_positive(self) -> (r: bool)
        ensures
            r == (self.raw > 0),
    {
        self.raw > 0
    }
}

/// A number has at most one integer square root.
pub proof fn lemma_int_sqrt_unique(n: int, r: int)
    requires
        is_int_sqrt(n, r),
    ensures
        int_sqrt(n) == r,
{
    let s = int_sqrt(n);
    assert(is_int_sqrt(n, s));
    if s < r {
        assert((s + 1) * (s + 1) <= r * r) by (nonlinear_arith)
            requires
                0 <= s,
                s + 1 <= r,
        ;
    }
    if r < s {
        assert((r + 1) * (r + 1) <= s * s) by (nonlinear_arith)
            requires
                0 <= r,
                r + 1 <= s,
        ;
    }
}

/// A number that is not smaller has an integer part that is not smaller.
pub proof fn lemma_to_int_monotone(a: Fixed, b: Fixed)
    requires
        a.raw <= b.raw,
    ensures
        a.trunc_spec() <= b.trunc_spec(),
        a.to_int_spec() <= b.to_int_spec(),
{
    let x = a.raw as int;
    let y = b.raw as int;
    assert(div_toward_zero(x, 65536) <= div_toward_zero(y, 65536)) by {
        if x >= 0 {
            assert(x / 65536 <= y / 65536);
        } else if y >= 0 {
            assert((-x) / 65536 >= 0);
            assert(y / 65536 >= 0);
        } else {
            assert((-y) / 65536 <= (-x) / 65536);
        }
    }
}

/// A whole number within `i32` is its own integer part.
pub proof fn lemma_from_int_to_int(v: int)
    requires
        i32::MIN <= v <= i32::MAX,
    ensures
        Fixed::from_int_spec(v).raw == v * 65536,
        Fixed::from_int_spec(v).trunc_spec() == v,
        Fixed::from_int_spec(v).to_int_spec() == v,
{
    let raw = v * 65536;
    assert(Fixed::from_int_spec(v).raw == raw);
    if v >= 0 {
        assert(raw / 65536 == v);
    } else {
        assert((-raw) / 65536 == -v);
    }
}

/// The product of a number with itself is not negative.
pub proof fn lemma_square_nonnegative(a: Fixed)
    ensures
        a.mul_spec(a).raw >= 0,
{
    reveal(Fixed::mul_spec);
    assert(a.raw * a.raw >= 0) by (nonlinear_arith);
}

/// Of two dividends the quotient of the smaller by a divisor that is not
/// negative is not the larger one.
pub proof fn lemma_div_monotone(a: Fixed, b: Fixed, d: Fixed)
    requires
        a.raw <= b.raw,
        d.raw >= 0,
    ensures
        a.div_spec(d).raw <= b.div_spec(d).raw,
{
    reveal(Fixed::div_spec);
    if d.raw > 0 {
        let x = a.raw * 65536;
        let y = b.raw * 65536;
        let z = d.raw as int;
        assert(div_toward_zero(x, z) <= div_toward_zero(y, z)) by {
            if x >= 0 {
                vstd::arithmetic::div_mod::lemma_div_is_ordered(x, y, z);
            } else if y >= 0 {
                vstd::arithmetic::div_mod::lemma_div_is_ordered(0, -x, z);
                vstd::arithmetic::div_mod::lemma_div_is_ordered(0, y, z);
            } else {
                vstd::arithmetic::div_mod::lemma_div_is_ordered(-y, -x, z);
            }
        }
    }
}

/// A product of two numbers that are not negative is not negative.
pub proof fn lemma_mul_nonnegative(a: Fixed, b: Fixed)
    requires
        a.raw >= 0,
        b.raw >= 0,
    ensures
        a.mul_spec(b).raw >= 0,
{
    reveal(Fixed::mul_spec);
    assert(a.raw * b.raw >= 0) by (nonlinear_arith)
        requires
            a.raw >= 0,
            b.raw >= 0,
    ;
}

/// A power of a number that is not negative is not negative.
pub proof fn lemma_pow_nonnegative(a: Fixed, n: nat)
    requires
        a.raw >= 0,
    ensures
        a.pow_spec(n).raw >= 0,
    decreases n,
{
    if n == 0 {
    } else if n % 2 == 0 {
        lemma_pow_nonnegative(a, n / 2);
        lemma_mul_nonnegative(a.pow_spec(n / 2), a.pow_spec(n / 2));
    } else {
        lemma_pow_nonnegative(a, (n - 1) as nat);
        lemma_mul_nonnegative(a, a.pow_spec((n - 1) as nat));
    }
}

/// A square root is not negative.
pub proof fn lemma_sqrt_nonnegative(a: Fixed)
    ensures
        a.sqrt_spec().raw >= 0,
{
    reveal(Fixed::sqrt_spec);
    if a.raw > 0 {
        let n = a.raw * 65536;
        lemma_int_sqrt_exists(n);
        assert(is_int_sqrt(n, int_sqrt(n)));
    }
}

/// Every number that is not negative has an integer square root.
pub proof fn lemma_int_sqrt_exists(n: int)
    requires
        n >= 0,
    ensures
        exists|r: int| is_int_sqrt(n, r),
    decreases n,
{
    if n == 0 {
        assert(is_int_sqrt(0, 0));
    } else {
        let m = n - 1;
        lemma_int_sqrt_exists(m);
        let r = choose|r: int| is_int_sqrt(m, r);
        if n < (r + 1) * (r + 1) {
            assert(is_int_sqrt(n, r));
        } else {
            assert((r + 2) * (r + 2) > (r + 1) * (r + 1)) by (nonlinear_arith)
                requires
                    r >= 0,
            ;
            assert(is_int_sqrt(n, r + 1));
        }
    }
}

/// Multiplying by one changes nothing.
pub proof fn lemma_mul_one(a: Fixed)
    ensures
        a.mul_spec(Fixed::one_spec()) == a,
        Fixed::one_spec().mul_spec(a) == a,
{
    reveal(Fixed::mul_spec);
    let x = a.raw as int;
    assert(x * 65536 == 65536 * x) by (nonlinear_arith);
    if x >= 0 {
        assert((x * 65536) / 65536 == x) by (nonlinear_arith);
    } else {
        assert((-(x * 65536)) / 65536 == -x) by (nonlinear_arith);
    }
}

} // verus!
