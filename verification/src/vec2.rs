use vstd::prelude::*;
use crate::fp::{isqrt, MAX_SENSE, MAX_POINT};

verus! {

/// A plane vector in fixed-point units (millionths of a meter,
/// of a meter per second, and so on).
#[derive(Clone, Copy, PartialEq, Eq, Structural, Debug)]
pub struct Vec2Fp {
    pub x: i64,
    pub y: i64,
}

/// Both components within the bound accepted from the sensing layer.
pub open spec fn in_sense(v: Vec2Fp) -> bool {
    -MAX_SENSE <= v.x <= MAX_SENSE && -MAX_SENSE <= v.y <= MAX_SENSE
}

/// Both components within the bound kept for computed world points.
pub open spec fn in_point(v: Vec2Fp) -> bool {
    -MAX_POINT <= v.x <= MAX_POINT && -MAX_POINT <= v.y <= MAX_POINT
}

/// Squared length in raw (doubly scaled) units.
pub open spec fn norm2(v: Vec2Fp) -> int {
    v.x * v.x + v.y * v.y
}

/// Raw (doubly scaled) dot product.
pub open spec fn dot_raw(a: Vec2Fp, b: Vec2Fp) -> int {
    a.x * b.x + a.y * b.y
}

/// `r` is the floor of the real square root of `n`.
pub open spec fn is_sqrt_floor(n: int, r: int) -> bool {
    0 <= r && r * r <= n && (r + 1) * (r + 1) > n
}

/// The floor of the real square root, as a spec-level function.
pub open spec fn sqrt_floor(n: int) -> int {
    choose|r: int| is_sqrt_floor(n, r)
}

/// Any witness of `is_sqrt_floor` pins `sqrt_floor` down.
pub proof fn lemma_sqrt_floor_unique(n: int, r: int)
    requires
        is_sqrt_floor(n, r),
    ensures
        sqrt_floor(n) == r,
{
    let r2 = choose|q: int| is_sqrt_floor(n, q);
    assert(is_sqrt_floor(n, r2));
    assert(r2 == r) by (nonlinear_arith)
        requires
            is_sqrt_floor(n, r),
            is_sqrt_floor(n, r2),
    ;
}

/// Every nonnegative integer has a floor square root.
pub proof fn lemma_sqrt_floor_exists(n: int)
    requires
        n >= 0,
    ensures
        is_sqrt_floor(n, sqrt_floor(n)),
    decreases n,
{
    if n == 0 {
        assert(is_sqrt_floor(0, 0));
        lemma_sqrt_floor_unique(0, 0);
    } else {
        lemma_sqrt_floor_exists(n - 1);
        let r = sqrt_floor(n - 1);
        if (r + 1) * (r + 1) <= n {
            assert(is_sqrt_floor(n, r + 1)) by (nonlinear_arith)
                requires
                    is_sqrt_floor(n - 1, r),
                    (r + 1) * (r + 1) <= n,
            ;
            lemma_sqrt_floor_unique(n, r + 1);
        } else {
            assert(is_sqrt_floor(n, r));
            lemma_sqrt_floor_unique(n, r);
        }
    }
}

/// Fixed-point length of a vector: floor of the root of the raw squared
/// length, which carries the fixed-point scale through unchanged.
pub open spec fn len_fp(v: Vec2Fp) -> int {
    sqrt_floor(norm2(v))
}

impl Vec2Fp {
    pub fn new(x: i64, y: i64) -> (r: Vec2Fp)
        ensures
            r.x == x && r.y == y,
    {
        Vec2Fp { x, y }
    }

    pub fn zero() -> (r: Vec2Fp)
        ensures
            r.x == 0 && r.y == 0,
    {
        Vec2Fp { x: 0, y: 0 }
    }

    pub fn sub(self, o: Vec2Fp) -> (r: Vec2Fp)
        requires
            -2 * MAX_POINT <= self.x - o.x <= 2 * MAX_POINT,
            -2 * MAX_POINT <= self.y - o.y <= 2 * MAX_POINT,
        ensures
            r.x == self.x - o.x && r.y == self.y - o.y,
    {
        Vec2Fp { x: self.x - o.x, y: self.y - o.y }
    }

    pub fn neg(self) -> (r: Vec2Fp)
        requires
            self.x > i64::MIN && self.y > i64::MIN,
        ensures
            r.x == -self.x && r.y == -self.y,
    {
        Vec2Fp { x: -self.x, y: -self.y }
    }

    /// Raw dot product, exact in a wide integer.
    pub fn dot(self, o: Vec2Fp) -> (r: i128)
        requires
            -2 * MAX_POINT <= self.x <= 2 * MAX_POINT,
            -2 * MAX_POINT <= self.y <= 2 * MAX_POINT,
            -2 * MAX_POINT <= o.x <= 2 * MAX_POINT,
            -2 * MAX_POINT <= o.y <= 2 * MAX_POINT,
        ensures
            r == dot_raw(self, o),
    {
        proof {
            assert(-(8 * MAX_POINT * MAX_POINT) <= self.x * o.x <= 8 * MAX_POINT * MAX_POINT
                && -(8 * MAX_POINT * MAX_POINT) <= self.y * o.y <= 8 * MAX_POINT * MAX_POINT)
                by (nonlinear_arith)
                requires
                    -2 * MAX_POINT <= self.x <= 2 * MAX_POINT,
                    -2 * MAX_POINT <= self.y <= 2 * MAX_POINT,
                    -2 * MAX_POINT <= o.x <= 2 * MAX_POINT,
                    -2 * MAX_POINT <= o.y <= 2 * MAX_POINT,
            ;
        }
        (self.x as i128) * (o.x as i128) + (self.y as i128) * (o.y as i128)
    }

    /// Raw squared length, exact in a wide integer.
    pub fn norm2_raw(self) -> (r: i128)
        requires
            -2 * MAX_POINT <= self.x <= 2 * MAX_POINT,
            -2 * MAX_POINT <= self.y <= 2 * MAX_POINT,
        ensures
            r == norm2(self),
            r >= 0,
    {
        let d = self.dot(self);
        proof {
            assert(self.x * self.x >= 0 && self.y * self.y >= 0) by (nonlinear_arith);
        }
        d
    }

    /// Fixed-point length: floor square root of the raw squared length.
    pub fn length(self) -> (r: i64)
        requires
            -2 * MAX_POINT <= self.x <= 2 * MAX_POINT,
            -2 * MAX_POINT <= self.y <= 2 * MAX_POINT,
        ensures
            r == len_fp(self),
            0 <= r <= 4 * MAX_POINT,
            is_sqrt_floor(norm2(self), r as int),
    {
        let n2 = self.norm2_raw();
        proof {
            assert(n2 < 1_000_000_000_000_000_000_000_000_000_000_000_000) by (nonlinear_arith)
                requires
                    n2 == self.x * self.x + self.y * self.y,
                    -2 * MAX_POINT <= self.x <= 2 * MAX_POINT,
                    -2 * MAX_POINT <= self.y <= 2 * MAX_POINT,
            ;
        }
        let s = isqrt(n2 as u128);
        proof {
            lemma_sqrt_floor_unique(norm2(self), s as int);
            assert(s <= 4 * MAX_POINT) by (nonlinear_arith)
                requires
                    s * s <= self.x * self.x + self.y * self.y,
                    -2 * MAX_POINT <= self.x <= 2 * MAX_POINT,
                    -2 * MAX_POINT <= self.y <= 2 * MAX_POINT,
                    s >= 0,
            ;
        }
        s as i64
    }

}

} // verus!
