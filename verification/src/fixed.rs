//! Exact fixed-point numbers, the verified number type of the engine.

use crate::scalar::Scalar;
use vstd::prelude::*;

verus! {

/// The number of raw units that make one whole.
pub const SCALE: i64 = 65536;

/// An exact number with sixteen binary places: `raw` counts 65536ths.
///
/// Every operation is total: a result that does not fit is the nearest number
/// that does, a quotient is cut off towards zero, a division by zero gives the
/// largest number of the dividend's sign (and zero for zero by zero), and the
/// root of a negative number is zero. The whole quotient that gives a cell is
/// exact and rounded down.
#[derive(Clone, Copy, Debug, PartialEq, Eq, Structural)]
pub struct Fixed {
    pub raw: i64,
}

/// The 64-bit integer nearest to `v`.
pub open spec fn clamp(v: int) -> i64 {
    if v < i64::MIN {
        i64::MIN
    } else if v > i64::MAX {
        i64::MAX
    } else {
        v as i64
    }
}

/// The size of `a` without its sign.
pub open spec fn magnitude(a: int) -> int {
    if a < 0 {
        -a
    } else {
        a
    }
}

/// The quotient of `a` by `b`, cut off towards zero; zero where `b` is zero.
pub open spec fn quotient(a: int, b: int) -> int {
    if b == 0 {
        0
    } else if a >= 0 && b > 0 {
        a / b
    } else if a < 0 && b > 0 {
        -((-a) / b)
    } else if a >= 0 {
        -(a / (-b))
    } else {
        (-a) / (-b)
    }
}

/// The quotient of `a` by `b`, rounded down; zero where `b` is zero.
pub open spec fn floor_quotient(a: int, b: int) -> int {
    if b == 0 {
        0
    } else if b > 0 {
        a / b
    } else {
        (-a) / (-b)
    }
}

/// Whether `r` is the whole part of the square root of `v`.
pub open spec fn is_root(r: int, v: int) -> bool {
    0 <= r && r * r <= v < (r + 1) * (r + 1)
}

/// The whole part of the square root of `v`; zero for a negative `v`.
pub open spec fn root(v: int) -> int {
    if v < 0 {
        0
    } else {
        choose|r: int| is_root(r, v)
    }
}

/// A number has at most one whole root.
pub proof fn lemma_root_unique(a: int, b: int, v: int)
    requires
        is_root(a, v),
        is_root(b, v),
    ensures
        a == b,
{
    if a < b {
        assert((a + 1) * (a + 1) <= b * b) by (nonlinear_arith)
            requires
                0 <= a,
                a + 1 <= b,
        ;
    } else if b < a {
        assert((b + 1) * (b + 1) <= a * a) by (nonlinear_arith)
            requires
                0 <= b,
                b + 1 <= a,
        ;
    }
}

/// Every number that is not negative has a whole root, which is not larger than
/// the number itself.
pub proof fn lemma_root_exists(v: int)
    requires
        0 <= v,
    ensures
        is_root(root(v), v),
        root(v) <= v,
    decreases v,
{
    if v == 0 {
        assert(is_root(0, 0));
    } else {
        lemma_root_exists(v - 1);
        let r = root(v - 1);
        assert((r + 2) * (r + 2) > (r + 1) * (r + 1)) by (nonlinear_arith)
            requires
                0 <= r,
        ;
        if (r + 1) * (r + 1) <= v {
            assert(is_root(r + 1, v));
        } else {
            assert(is_root(r, v));
        }
    }
    let chosen = root(v);
    assert(is_root(chosen, v));
    if chosen > v {
        assert(chosen * chosen > v) by (nonlinear_arith)
            requires
                chosen > v,
                v >= 0,
        ;
    }
}

/// A quotient by a positive number has the sign of the dividend, or is zero.
pub proof fn lemma_quotient_sign(a: int, b: int)
    requires
        b > 0,
    ensures
        a >= 0 ==> quotient(a, b) >= 0,
        a <= 0 ==> quotient(a, b) <= 0,
        a == 0 ==> quotient(a, b) == 0,
{
    if a >= 0 {
        assert(a / b >= 0) by (nonlinear_arith)
            requires
                a >= 0,
                b > 0,
        ;
        if a == 0 {
            assert(0int / b == 0) by (nonlinear_arith)
                requires
                    b > 0,
            ;
        }
    } else {
        assert((-a) / b >= 0) by (nonlinear_arith)
            requires
                a < 0,
                b > 0,
        ;
    }
}

fn saturate(v: i128) -> (r: i64)
    ensures
        r == clamp(v as int),
{
    if v < i64::MIN as i128 {
        i64::MIN
    } else if v > i64::MAX as i128 {
        i64::MAX
    } else {
        v as i64
    }
}

fn divide(a: i128, b: i128) -> (q: i128)
    requires
        b != 0,
        -0x4000_0000_0000_0000_0000_0000_0000_0000 <= a <= 0x4000_0000_0000_0000_0000_0000_0000_0000,
        -0x4000_0000_0000_0000_0000_0000_0000_0000 <= b <= 0x4000_0000_0000_0000_0000_0000_0000_0000,
    ensures
        q == quotient(a as int, b as int),
{
    let size_a: u128 = if a < 0 {
        (-a) as u128
    } else {
        a as u128
    };
    let size_b: u128 = if b < 0 {
        (-b) as u128
    } else {
        b as u128
    };
    let size_q: u128 = size_a / size_b;
    assert(size_q <= size_a) by (nonlinear_arith)
        requires
            size_q == size_a / size_b,
            size_b > 0,
    ;
    if (a >= 0) == (b > 0) {
        size_q as i128
    } else {
        -(size_q as i128)
    }
}

fn divide_down(a: i128, b: i128) -> (q: i128)
    requires
        b != 0,
        -0x8000_0000_0000_0000 <= a <= 0x8000_0000_0000_0000,
        -0x8000_0000_0000_0000 <= b <= 0x8000_0000_0000_0000,
    ensures
        q == floor_quotient(a as int, b as int),
        -0x8000_0000_0000_0000 <= q <= 0x8000_0000_0000_0000,
{
    let (above, below): (i128, i128) = if b > 0 {
        (a, b)
    } else {
        (-a, -b)
    };
    assert(-0x8000_0000_0000_0000 <= above as int / below as int <= 0x8000_0000_0000_0000)
        by (nonlinear_arith)
        requires
            below >= 1,
            -0x8000_0000_0000_0000 <= above <= 0x8000_0000_0000_0000,
    ;
    match above.checked_div_euclid(below) {
        Some(q) => q,
        None => 0,
    }
}

fn whole_root(v: u128) -> (r: u128)
    requires
        v < 0x1_0000_0000_0000_0000_0000,
    ensures
        is_root(r as int, v as int),
        r < 0x100_0000_0000,
{
    let mut low: u128 = 0;
    let mut high: u128 = 0x100_0000_0000;
    assert(0x100_0000_0000int * 0x100_0000_0000int == 0x1_0000_0000_0000_0000_0000int);
    while high - low > 1
        invariant
            low < high <= 0x100_0000_0000,
            low * low <= v < high * high,
        decreases high - low,
    {
        let mid: u128 = low + (high - low) / 2;
        assert(mid * mid <= 0x100_0000_0000int * 0x100_0000_0000int) by (nonlinear_arith)
            requires
                0 <= mid <= 0x100_0000_0000,
        ;
        if mid * mid <= v {
            low = mid;
        } else {
            high = mid;
        }
    }
    low
}

impl Fixed {
    /// The whole number `n`.
    pub fn from_int(n: i32) -> (r: Self)
        ensures
            r.raw == n * SCALE,
    {
        Fixed { raw: n as i64 * 65536 }
    }

    /// What is made of a drawn raw number when a number between `low` and
    /// `high` is asked for: where `low` is not above `high`, the nearest
    /// number that is not outside them, and else the drawn number itself.
    pub open spec fn bounded_spec(low: Self, high: Self, drawn: i64) -> Self {
        if low.raw <= high.raw {
            if drawn < low.raw {
                low
            } else if drawn > high.raw {
                high
            } else {
                Fixed { raw: drawn }
            }
        } else {
            Fixed { raw: drawn }
        }
    }

    /// The number that a drawn raw number stands for when a number between
    /// `low` and `high` is asked for. Where `low` is not above `high` it is
    /// never outside them, whatever was drawn.
    pub fn bounded(low: Self, high: Self, drawn: i64) -> (r: Self)
        ensures
            r == Self::bounded_spec(low, high, drawn),
            low.raw <= high.raw ==> low.raw <= r.raw <= high.raw,
            low.raw <= drawn <= high.raw ==> r.raw == drawn,
    {
        if low.raw <= high.raw {
            if drawn < low.raw {
                low
            } else if drawn > high.raw {
                high
            } else {
                Fixed { raw: drawn }
            }
        } else {
            Fixed { raw: drawn }
        }
    }
}

impl Scalar for Fixed {
    open spec fn ratio_spec(num: i32, den: i32) -> Self {
        Fixed { raw: clamp(quotient(num * SCALE, den as int)) }
    }

    open spec fn add_spec(self, rhs: Self) -> Self {
        Fixed { raw: clamp(self.raw + rhs.raw) }
    }

    open spec fn sub_spec(self, rhs: Self) -> Self {
        Fixed { raw: clamp(self.raw - rhs.raw) }
    }

    open spec fn mul_spec(self, rhs: Self) -> Self {
        Fixed { raw: clamp(quotient(self.raw * rhs.raw, SCALE as int)) }
    }

    open spec fn div_spec(self, rhs: Self) -> Self {
        if rhs.raw == 0 {
            if self.raw > 0 {
                Fixed { raw: i64::MAX }
            } else if self.raw < 0 {
                Fixed { raw: i64::MIN }
            } else {
                Fixed { raw: 0 }
            }
        } else {
            Fixed { raw: clamp(quotient(self.raw * SCALE, rhs.raw as int)) }
        }
    }

    open spec fn neg_spec(self) -> Self {
        Fixed { raw: clamp(-self.raw) }
    }

    open spec fn sqrt_spec(self) -> Self {
        Fixed { raw: root(self.raw * SCALE) as i64 }
    }

    open spec fn lt_spec(self, rhs: Self) -> bool {
        self.raw < rhs.raw
    }

    open spec fn truncate_spec(self) -> isize {
        let whole = quotient(self.raw as int, SCALE as int);
        if whole < isize::MIN {
            isize::MIN
        } else if whole > isize::MAX {
            isize::MAX
        } else {
            whole as isize
        }
    }

    open spec fn floor_div_spec(self, rhs: Self) -> isize {
        if rhs.raw == 0 {
            if self.raw > 0 {
                isize::MAX
            } else if self.raw < 0 {
                isize::MIN
            } else {
                0
            }
        } else {
            let whole = floor_quotient(self.raw as int, rhs.raw as int);
            if whole < isize::MIN {
                isize::MIN
            } else if whole > isize::MAX {
                isize::MAX
            } else {
                whole as isize
            }
        }
    }

    fn from_ratio(num: i32, den: i32) -> (r: Self) {
        Fixed { raw: saturate(divide(num as i128 * 65536, den as i128)) }
    }

    fn add(self, rhs: Self) -> (r: Self) {
        Fixed { raw: saturate(self.raw as i128 + rhs.raw as i128) }
    }

    fn sub(self, rhs: Self) -> (r: Self) {
        Fixed { raw: saturate(self.raw as i128 - rhs.raw as i128) }
    }

    fn mul(self, rhs: Self) -> (r: Self) {
        assert(-0x4000_0000_0000_0000_0000_0000_0000_0000 <= self.raw * rhs.raw
            <= 0x4000_0000_0000_0000_0000_0000_0000_0000) by (nonlinear_arith)
            requires
                -0x8000_0000_0000_0000 <= self.raw <= 0x8000_0000_0000_0000,
                -0x8000_0000_0000_0000 <= rhs.raw <= 0x8000_0000_0000_0000,
        ;
        Fixed { raw: saturate(divide(self.raw as i128 * rhs.raw as i128, 65536)) }
    }

    fn div(self, rhs: Self) -> (r: Self) {
        if rhs.raw == 0 {
            if self.raw > 0 {
                Fixed { raw: i64::MAX }
            } else if self.raw < 0 {
                Fixed { raw: i64::MIN }
            } else {
                Fixed { raw: 0 }
            }
        } else {
            Fixed { raw: saturate(divide(self.raw as i128 * 65536, rhs.raw as i128)) }
        }
    }

    fn neg(self) -> (r: Self) {
        Fixed { raw: saturate(-(self.raw as i128)) }
    }

    fn sqrt(self) -> (r: Self) {
        if self.raw < 0 {
            Fixed { raw: 0 }
        } else {
            let r: u128 = whole_root(self.raw as u128 * 65536);
            proof {
                let v = self.raw * SCALE;
                let chosen = choose|c: int| is_root(c, v);
                lemma_root_unique(r as int, chosen, v);
            }
            Fixed { raw: r as i64 }
        }
    }

    fn lt(self, rhs: Self) -> (b: bool) {
        self.raw < rhs.raw
    }

    fn truncate(self) -> (n: isize) {
        let whole: i128 = divide(self.raw as i128, 65536);
        if whole < isize::MIN as i128 {
            isize::MIN
        } else if whole > isize::MAX as i128 {
            isize::MAX
        } else {
            whole as isize
        }
    }

    fn floor_div(self, rhs: Self) -> (n: isize) {
        if rhs.raw == 0 {
            if self.raw > 0 {
                isize::MAX
            } else if self.raw < 0 {
                isize::MIN
            } else {
                0
            }
        } else {
            let whole: i128 = divide_down(self.raw as i128, rhs.raw as i128);
            if whole < isize::MIN as i128 {
                isize::MIN
            } else if whole > isize::MAX as i128 {
                isize::MAX
            } else {
                whole as isize
            }
        }
    }

    fn random_between(low: Self, high: Self) -> (r: Self) {
        let drawn: i64 = crate::random::gen_range(low.raw, high.raw);
        Self::bounded(low, high, drawn)
    }
}

} // verus!
