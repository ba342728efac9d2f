//! Fixed-point scalars with 32 fractional bits and saturating arithmetic.

use vstd::prelude::*;
use vstd::arithmetic::power2::{pow2, lemma_pow2_unfold, lemma2_to64};
use crate::nannou_calls::{magnitude, magnitude_of, random_bits, squared};

verus! {

/// Raw units per whole number.
pub const SCALE: i64 = 4294967296;

/// Raw units in one half.
pub const HALF: i64 = 2147483648;

/// The nearest value to `x` that a 64-bit raw count can hold.
pub open spec fn saturate(x: int) -> int {
    if x < i64::MIN {
        i64::MIN as int
    } else if x > i64::MAX {
        i64::MAX as int
    } else {
        x
    }
}

/// The quotient of `x` by `d`, rounded toward zero (`d` is not zero).
pub open spec fn quotient(x: int, d: int) -> int {
    if d > 0 {
        if x >= 0 {
            x / d
        } else {
            -((-x) / d)
        }
    } else {
        if x >= 0 {
            -(x / (-d))
        } else {
            (-x) / (-d)
        }
    }
}

/// A scalar: `raw` counts units of 2^-32, so the number meant is `raw / SCALE`.
#[derive(Clone, Copy, Debug, PartialEq, Eq, Structural)]
pub struct Fixed {
    pub raw: i64,
}

impl View for Fixed {
    type V = int;

    open spec fn view(&self) -> int {
        self.raw as int
    }
}

/// The scalar whose raw count is `saturate(x)`.
pub open spec fn fixed(x: int) -> Fixed {
    Fixed { raw: saturate(x) as i64 }
}

fn narrow(x: i128) -> (r: Fixed)
    ensures
        r == fixed(x as int),
{
    if x > i64::MAX as i128 {
        Fixed { raw: i64::MAX }
    } else if x < i64::MIN as i128 {
        Fixed { raw: i64::MIN }
    } else {
        Fixed { raw: x as i64 }
    }
}

/// The greatest natural number whose square is at most `n`.
pub open spec fn floor_sqrt(n: nat) -> nat
    decreases n,
{
    if n == 0 {
        0
    } else {
        let r = floor_sqrt((n - 1) as nat);
        if (r + 1) * (r + 1) <= n {
            r + 1
        } else {
            r
        }
    }
}

/// `floor_sqrt(n)` squared is at most `n`, and the next number squared is more.
pub proof fn lemma_floor_sqrt_bounds(n: nat)
    ensures
        floor_sqrt(n) * floor_sqrt(n) <= n < (floor_sqrt(n) + 1) * (floor_sqrt(n) + 1),
    decreases n,
{
    let s = floor_sqrt(n) as int;
    if n == 0 {
        assert(s == 0);
        assert(s * s == 0 && (s + 1) * (s + 1) == 1) by (nonlinear_arith)
            requires
                s == 0,
        ;
    } else {
        lemma_floor_sqrt_bounds((n - 1) as nat);
        let r = floor_sqrt((n - 1) as nat) as int;
        if (r + 1) * (r + 1) <= n {
            assert(s == r + 1);
            assert(s * s <= n < (s + 1) * (s + 1)) by (nonlinear_arith)
                requires
                    s == r + 1,
                    r >= 0,
                    (r + 1) * (r + 1) <= n,
                    n - 1 < (r + 1) * (r + 1),
            ;
        } else {
            assert(s == r);
        }
    }
}

/// Only one number lies between the bounds that `floor_sqrt` meets.
pub proof fn lemma_floor_sqrt_unique(r: nat, n: nat)
    requires
        r * r <= n < (r + 1) * (r + 1),
    ensures
        r == floor_sqrt(n),
{
    lemma_floor_sqrt_bounds(n);
    let s = floor_sqrt(n);
    assert(r == s) by (nonlinear_arith)
        requires
            r * r <= n < (r + 1) * (r + 1),
            s * s <= n < (s + 1) * (s + 1),
    ;
}

/// A number whose square is at most `n` is at most the square root of `n`.
pub proof fn lemma_floor_sqrt_at_least(r: nat, n: nat)
    requires
        r * r <= n,
    ensures
        r <= floor_sqrt(n),
{
    lemma_floor_sqrt_bounds(n);
    let s = floor_sqrt(n);
    assert(r <= s) by (nonlinear_arith)
        requires
            r * r <= n,
            n < (s + 1) * (s + 1),
    ;
}

/// The integer square root, found one binary digit at a time.
pub fn isqrt(n: u128) -> (r: u128)
    ensures
        r == floor_sqrt(n as nat),
        r < 0x1_0000_0000_0000_0000,
{
    let mut r: u128 = 0;
    let mut step: u128 = 0x1_0000_0000_0000_0000;
    let ghost mut k: nat = 64;
    proof {
        lemma2_to64();
    }
    while step > 1
        invariant
            step == pow2(k),
            step >= 1,
            r * r <= n,
            n < (r + step) * (r + step),
            r + step <= 0x1_0000_0000_0000_0000,
        decreases step,
    {
        proof {
            lemma2_to64();
            lemma_pow2_unfold(k);
            k = (k - 1) as nat;
        }
        step = step / 2;
        let t: u128 = r + step;
        assert(t * t <= 0xffff_ffff_ffff_ffff_ffff_ffff_ffff_ffff) by (nonlinear_arith)
            requires
                0 <= t <= 0xffff_ffff_ffff_ffff,
        ;
        if t * t <= n {
            r = t;
        }
    }
    proof {
        lemma_floor_sqrt_unique(r as nat, n as nat);
    }
    r
}

proof fn lemma_square_fits(a: int)
    by (nonlinear_arith)
    requires
        0 <= a <= 0x8000_0000_0000_0000,
    ensures
        0 <= a * a <= 0x4000_0000_0000_0000_0000_0000_0000_0000,
{
}

proof fn lemma_square_of_magnitude(x: int)
    by (nonlinear_arith)
    ensures
        magnitude_of(x) * magnitude_of(x) == x * x,
{
}

impl Fixed {
    pub open spec fn spec_plus(self, rhs: Fixed) -> Fixed {
        fixed(self.raw + rhs.raw)
    }

    /// The sum, saturated.
    #[verifier::when_used_as_spec(spec_plus)]
    pub fn plus(self, rhs: Fixed) -> (r: Fixed)
        ensures
            r == self.spec_plus(rhs),
    {
        narrow(self.raw as i128 + rhs.raw as i128)
    }

    pub open spec fn spec_minus(self, rhs: Fixed) -> Fixed {
        fixed(self.raw - rhs.raw)
    }

    /// The difference, saturated.
    #[verifier::when_used_as_spec(spec_minus)]
    pub fn minus(self, rhs: Fixed) -> (r: Fixed)
        ensures
            r == self.spec_minus(rhs),
    {
        narrow(self.raw as i128 - rhs.raw as i128)
    }

    pub open spec fn spec_negated(self) -> Fixed {
        fixed(-self.raw)
    }

    /// The opposite, saturated: the opposite of the least value is the greatest.
    #[verifier::when_used_as_spec(spec_negated)]
    pub fn negated(self) -> (r: Fixed)
        ensures
            r == self.spec_negated(),
    {
        narrow(-(self.raw as i128))
    }

    pub open spec fn spec_times(self, rhs: Fixed) -> Fixed {
        fixed(quotient(self.raw * rhs.raw, SCALE as int))
    }

    /// The product, rounded toward zero and saturated.
    #[verifier::when_used_as_spec(spec_times)]
    pub fn times(self, rhs: Fixed) -> (r: Fixed)
        ensures
            r == self.spec_times(rhs),
    {
        let a: i128 = self.raw as i128;
        let b: i128 = rhs.raw as i128;
        assert(-0x4000_0000_0000_0000_0000_0000_0000_0000 <= a * b
            <= 0x4000_0000_0000_0000_0000_0000_0000_0000) by (nonlinear_arith)
            requires
                -0x8000_0000_0000_0000 <= a <= 0x8000_0000_0000_0000,
                -0x8000_0000_0000_0000 <= b <= 0x8000_0000_0000_0000,
        ;
        narrow((a * b) / (SCALE as i128))
    }

    pub open spec fn spec_from_int(n: i32) -> Fixed {
        Fixed { raw: (n * SCALE) as i64 }
    }

    /// The scalar that stands for the whole number `n`.
    #[verifier::when_used_as_spec(spec_from_int)]
    pub fn from_int(n: i32) -> (r: Fixed)
        ensures
            r == Fixed::spec_from_int(n),
            r.raw == n * SCALE,
    {
        Fixed { raw: (n as i64) * SCALE }
    }

    pub open spec fn spec_half() -> Fixed {
        Fixed { raw: HALF }
    }

    /// One half.
    #[verifier::when_used_as_spec(spec_half)]
    pub fn half() -> (r: Fixed)
        ensures
            r == Fixed::spec_half(),
    {
        Fixed { raw: HALF }
    }

    /// A fraction drawn at random: zero or more, and less than one. Its 32
    /// fractional bits come from the thread's generator.
    pub fn draw() -> (r: Fixed)
        ensures
            0 <= r.raw < SCALE,
    {
        Fixed::from_bits(random_bits())
    }

    /// The fraction whose 32 fractional bits are `bits`: zero or more, and
    /// less than one.
    pub fn from_bits(bits: u32) -> (r: Fixed)
        ensures
            r.raw == bits,
    {
        Fixed { raw: bits as i64 }
    }

    pub open spec fn spec_abs(self) -> Fixed {
        fixed(magnitude_of(self.raw as int))
    }

    /// The distance from zero, saturated: that of the least value is the greatest.
    #[verifier::when_used_as_spec(spec_abs)]
    pub fn abs(self) -> (r: Fixed)
        ensures
            r == self.spec_abs(),
    {
        narrow(magnitude(self.raw as i128))
    }

    pub open spec fn spec_max(self, rhs: Fixed) -> Fixed {
        if self.raw >= rhs.raw {
            self
        } else {
            rhs
        }
    }

    /// The greater of the two.
    #[verifier::when_used_as_spec(spec_max)]
    pub fn max(self, rhs: Fixed) -> (r: Fixed)
        ensures
            r == self.spec_max(rhs),
    {
        if self.raw >= rhs.raw {
            self
        } else {
            rhs
        }
    }

    pub open spec fn spec_hypot(self, rhs: Fixed) -> Fixed {
        fixed(floor_sqrt((self.raw * self.raw + rhs.raw * rhs.raw) as nat) as int)
    }

    /// The length of the hypotenuse over the two legs: the square root of the
    /// sum of their squares, rounded down and saturated.
    #[verifier::when_used_as_spec(spec_hypot)]
    pub fn hypot(self, rhs: Fixed) -> (r: Fixed)
        ensures
            r == self.spec_hypot(rhs),
    {
        let a: u128 = magnitude(self.raw as i128) as u128;
        let b: u128 = magnitude(rhs.raw as i128) as u128;
        proof {
            lemma_square_fits(a as int);
            lemma_square_fits(b as int);
            lemma_square_of_magnitude(self.raw as int);
            lemma_square_of_magnitude(rhs.raw as int);
        }
        let sum: u128 = squared(a) + squared(b);
        narrow(isqrt(sum) as i128)
    }

    pub open spec fn spec_over_square(self, rhs: Fixed) -> Fixed {
        if rhs.raw != 0 {
            fixed(quotient(self.raw * SCALE * SCALE, rhs.raw * rhs.raw))
        } else if self.raw > 0 {
            Fixed { raw: i64::MAX }
        } else if self.raw < 0 {
            Fixed { raw: i64::MIN }
        } else {
            Fixed { raw: 0 }
        }
    }

    /// The quotient by the square of `rhs`, rounded toward zero once, at the
    /// end, and saturated. The square itself is taken in full, so a large
    /// `rhs` gives a small quotient. Dividing by zero goes as in `over`.
    #[verifier::when_used_as_spec(spec_over_square)]
    pub fn over_square(self, rhs: Fixed) -> (r: Fixed)
        ensures
            r == self.spec_over_square(rhs),
    {
        if rhs.raw != 0 {
            let a: i128 = self.raw as i128;
            let side: u128 = magnitude(rhs.raw as i128) as u128;
            proof {
                lemma_square_fits(side as int);
                lemma_square_of_magnitude(rhs.raw as int);
                assert(side * side >= 1) by (nonlinear_arith)
                    requires
                        side >= 1,
                ;
                assert(SCALE * SCALE == 0x1_0000_0000_0000_0000);
                assert(self.raw * SCALE * SCALE == self.raw * 0x1_0000_0000_0000_0000)
                    by (nonlinear_arith)
                    requires
                        SCALE * SCALE == 0x1_0000_0000_0000_0000,
                ;
            }
            let top: u128 = (magnitude(a) as u128) * 0x1_0000_0000_0000_0000;
            let part: u128 = top / squared(side);
            if part > 0x7fff_ffff_ffff_ffff {
                if a < 0 {
                    Fixed { raw: i64::MIN }
                } else {
                    Fixed { raw: i64::MAX }
                }
            } else if a < 0 {
                narrow(-(part as i128))
            } else {
                narrow(part as i128)
            }
        } else if self.raw > 0 {
            Fixed { raw: i64::MAX }
        } else if self.raw < 0 {
            Fixed { raw: i64::MIN }
        } else {
            Fixed { raw: 0 }
        }
    }

    pub open spec fn spec_over(self, rhs: Fixed) -> Fixed {
        if rhs.raw != 0 {
            fixed(quotient(self.raw * SCALE, rhs.raw as int))
        } else if self.raw > 0 {
            Fixed { raw: i64::MAX }
        } else if self.raw < 0 {
            Fixed { raw: i64::MIN }
        } else {
            Fixed { raw: 0 }
        }
    }

    /// The quotient, rounded toward zero and saturated. Dividing by zero
    /// gives the greatest value for a positive dividend, the least for a
    /// negative one, and zero for zero.
    #[verifier::when_used_as_spec(spec_over)]
    pub fn over(self, rhs: Fixed) -> (r: Fixed)
        ensures
            r == self.spec_over(rhs),
    {
        if rhs.raw != 0 {
            let a: i128 = self.raw as i128;
            let b: i128 = rhs.raw as i128;
            let top: i128 = magnitude(a);
            let bottom: i128 = magnitude(b);
            assert(SCALE == 4294967296);
            let part: i128 = (top * 4294967296) / bottom;
            narrow(if (a < 0) != (b < 0) { -part } else { part })
        } else if self.raw > 0 {
            Fixed { raw: i64::MAX }
        } else if self.raw < 0 {
            Fixed { raw: i64::MIN }
        } else {
            Fixed { raw: 0 }
        }
    }
}

/// Zero times anything is zero.
pub proof fn lemma_zero_times(a: Fixed, b: Fixed)
    requires
        a.raw == 0 || b.raw == 0,
    ensures
        a.times(b).raw == 0,
{
    assert(a.raw * b.raw == 0) by (nonlinear_arith)
        requires
            a.raw == 0 || b.raw == 0,
    ;
}

/// Zero over anything is zero, over zero too.
pub proof fn lemma_zero_over(a: Fixed, b: Fixed)
    requires
        a.raw == 0,
    ensures
        a.over(b).raw == 0,
{
    let d = b.raw as int;
    if d != 0 {
        assert(a.raw * SCALE == 0);
        assert(0int / d == 0 && 0int / (-d) == 0) by (nonlinear_arith)
            requires
                d != 0,
        ;
    }
}

/// The quotient is no larger than the dividend allows, has the dividend's
/// sign or is zero, and turns round with the dividend.
pub proof fn lemma_quotient(x: int, d: int)
    requires
        d > 0,
    ensures
        magnitude_of(quotient(x, d)) * d <= magnitude_of(x),
        x >= 0 ==> quotient(x, d) >= 0,
        x <= 0 ==> quotient(x, d) <= 0,
        quotient(-x, d) == -quotient(x, d),
{
    let m = magnitude_of(x);
    assert(0 <= (m / d) * d <= m) by (nonlinear_arith)
        requires
            m >= 0,
            d > 0,
    ;
    assert(0 <= m / d) by (nonlinear_arith)
        requires
            m >= 0,
            d > 0,
    ;
}

/// The magnitude of a product is the product of the magnitudes.
pub proof fn lemma_magnitude_of_product(x: int, y: int)
    by (nonlinear_arith)
    ensures
        magnitude_of(x * y) == magnitude_of(x) * magnitude_of(y),
        (x >= 0 && y >= 0) ==> x * y >= 0,
        (x <= 0 && y >= 0) ==> x * y <= 0,
        (-x) * y == -(x * y),
{
}

/// A product has the sign that its factors give it, or is zero.
pub proof fn lemma_times_sign(a: Fixed, b: Fixed)
    requires
        b.raw >= 0,
    ensures
        a.raw >= 0 ==> a.times(b).raw >= 0,
        a.raw <= 0 ==> a.times(b).raw <= 0,
{
    lemma_magnitude_of_product(a.raw as int, b.raw as int);
    lemma_quotient(a.raw * b.raw, SCALE as int);
}

/// A quotient by a positive scalar, or by zero, has the dividend's sign or
/// is zero.
pub proof fn lemma_over_sign(a: Fixed, b: Fixed)
    requires
        b.raw >= 0,
    ensures
        a.raw >= 0 ==> a.over(b).raw >= 0,
        a.raw <= 0 ==> a.over(b).raw <= 0,
{
    if b.raw > 0 {
        lemma_quotient(a.raw * SCALE, b.raw as int);
    }
}

/// Zero over any square is zero.
pub proof fn lemma_zero_over_square(a: Fixed, b: Fixed)
    requires
        a.raw == 0,
    ensures
        a.over_square(b).raw == 0,
{
    let d = b.raw as int;
    if d != 0 {
        assert(a.raw * SCALE * SCALE == 0);
        assert(d * d > 0 && 0int / (d * d) == 0) by (nonlinear_arith)
            requires
                d != 0,
        ;
    }
}

/// A quotient by a square has the dividend's sign or is zero.
pub proof fn lemma_over_square_sign(a: Fixed, b: Fixed)
    ensures
        a.raw >= 0 ==> a.over_square(b).raw >= 0,
        a.raw <= 0 ==> a.over_square(b).raw <= 0,
{
    let d = b.raw as int;
    if d != 0 {
        assert(d * d > 0) by (nonlinear_arith)
            requires
                d != 0,
        ;
        lemma_quotient(a.raw * SCALE * SCALE, d * d);
    }
}

} // verus!
