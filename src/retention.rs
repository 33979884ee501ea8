//! Size-based retention: the bigger a payload, the shorter it is kept.

use vstd::arithmetic::div_mod::{
    lemma_div_is_ordered,
    lemma_div_multiples_vanish,
    lemma_fundamental_div_mod,
    lemma_fundamental_div_mod_converse,
};
use vstd::prelude::*;

verus! {

/// The retention, in seconds, of a payload of `size` bytes on the curve
/// `(min_age, max_age, max_size)`: `min_age` from `max_size` on, and below it
/// `max_age - (max_age - min_age) * (size / max_size)^2`, rounded down.
pub open spec fn retention_for(min_age: int, max_age: int, max_size: int, size: int) -> int {
    if size >= max_size {
        min_age
    } else {
        (max_age * (max_size * max_size) - (max_age - min_age) * (size * size)) / (max_size
            * max_size)
    }
}

/// Why a curve could not be built.
#[derive(Debug, PartialEq, Eq, Structural, Clone, Copy)]
pub enum Error {
    /// The minimum age (first) is above the maximum age (second).
    BoundDefinition(u64, u64),
}

/// A quadratic curve from a payload's size to its retention time.
#[derive(Debug, Clone, Copy)]
pub struct RetentionCurve {
    min_age: u64,
    max_age: u64,
    max_size: u64,
}

impl RetentionCurve {
    /// The shortest retention, given from `max_size` on.
    pub closed spec fn min_age(&self) -> u64 {
        self.min_age
    }

    /// The longest retention, given to an empty payload.
    pub closed spec fn max_age(&self) -> u64 {
        self.max_age
    }

    /// The size from which the shortest retention applies.
    pub closed spec fn max_size(&self) -> u64 {
        self.max_size
    }

    /// A curve's ages are ordered.
    #[verifier::type_invariant]
    spec fn ordered(&self) -> bool {
        self.min_age <= self.max_age
    }

    /// The retention this curve gives to `size`.
    pub open spec fn spec_compute_for(&self, size: u64) -> int {
        retention_for(
            self.min_age() as int,
            self.max_age() as int,
            self.max_size() as int,
            size as int,
        )
    }

    /// Create a new [`RetentionCurve`] from its parameters.
    pub fn new(min_age: u64, max_age: u64, max_size: u64) -> (r: Result<Self, Error>)
        ensures
            min_age > max_age ==> r == Err::<Self, Error>(Error::BoundDefinition(min_age, max_age)),
            min_age <= max_age ==> (r matches Ok(c) && c.min_age() == min_age
                && c.max_age() == max_age && c.max_size() == max_size),
    {
        if min_age > max_age {
            return Err(Error::BoundDefinition(min_age, max_age));
        }
        Ok(RetentionCurve { min_age, max_age, max_size })
    }

    /// The max age in seconds of the curve.
    pub fn max(&self) -> (r: u64)
        ensures
            r == self.max_age(),
    {
        self.max_age
    }

    /// The retention, in seconds, of a payload of `size` bytes.
    pub fn compute_for(&self, size: u64) -> (r: u64)
        ensures
            r == self.spec_compute_for(size),
            self.min_age() <= r <= self.max_age(),
    {
        proof {
            use_type_invariant(self);
        }
        if size >= self.max_size {
            return self.min_age;
        }
        let m: u128 = self.max_size as u128;
        let s: u128 = size as u128;
        let w: u128 = (self.max_age - self.min_age) as u128;
        proof {
            lemma_product_fits(w as int, s as int);
            lemma_product_fits(m as int, m as int);
        }
        // `w * s * s / (m * m)` is computed in two divisions by `m`, so that
        // no intermediate product leaves 128 bits.
        let x: u128 = w * s;
        let q: u128 = x / m;
        let rm: u128 = x % m;
        proof {
            lemma_fundamental_div_mod(x as int, m as int);
            lemma_quotient_scaled(x as int, m as int, q as int, rm as int, s as int);
            lemma_remainder_scaled(rm as int, s as int, m as int);
        }
        let t1: u128 = q * s;
        let rs: u128 = rm * s;
        let t2: u128 = rs / m;
        let e2: u128 = rs % m;
        proof {
            lemma_fundamental_div_mod(rs as int, m as int);
            assert(rm * s <= rm * m) by (nonlinear_arith)
                requires
                    s < m,
            ;
            lemma_div_is_ordered((rm * s) as int, (rm * m) as int, m as int);
            lemma_div_multiples_vanish(rm as int, m as int);
            assert(rm * m == m * rm) by (nonlinear_arith);
            assert(t1 + t2 <= x) by (nonlinear_arith)
                requires
                    x == m * q + rm,
                    t1 == q * s,
                    t2 <= rm,
                    s < m,
                    q >= 0,
            ;
        }
        let y: u128 = t1 + t2;
        let f: u128 = y / m;
        let e1: u128 = y % m;
        proof {
            lemma_fundamental_div_mod(y as int, m as int);
            lemma_ceiling_split(
                self.min_age as int,
                self.max_age as int,
                w as int,
                s as int,
                m as int,
                x as int,
                q as int,
                rm as int,
                t1 as int,
                t2 as int,
                e2 as int,
                y as int,
                f as int,
                e1 as int,
            );
        }
        let c: u128 = if e1 == 0 && e2 == 0 {
            f
        } else {
            f + 1
        };
        self.max_age - c as u64
    }
}

proof fn lemma_product_fits(a: int, b: int)
    requires
        0 <= a <= u64::MAX,
        0 <= b <= u64::MAX,
    ensures
        0 <= a * b <= u128::MAX,
{
    assert(0 <= a * b <= u64::MAX * u64::MAX) by (nonlinear_arith)
        requires
            0 <= a <= u64::MAX,
            0 <= b <= u64::MAX,
    ;
}

proof fn lemma_quotient_scaled(x: int, m: int, q: int, rm: int, s: int)
    requires
        0 <= x,
        0 <= s < m,
        x == m * q + rm,
        0 <= rm < m,
    ensures
        0 <= q,
        0 <= q * s <= x,
{
    if q < 0 {
        assert(m * q <= -m) by (nonlinear_arith)
            requires
                q < 0,
                m > 0,
        ;
    }
    assert(0 <= q * s <= x) by (nonlinear_arith)
        requires
            0 <= q,
            0 <= s < m,
            x == m * q + rm,
            0 <= rm,
    ;
}

proof fn lemma_remainder_scaled(rm: int, s: int, m: int)
    requires
        0 <= rm < m,
        0 <= s < m,
        m <= u64::MAX,
    ensures
        0 <= rm * s < m * m,
        m * m <= u128::MAX,
{
    assert(0 <= rm * s < m * m) by (nonlinear_arith)
        requires
            0 <= rm < m,
            0 <= s < m,
    ;
    lemma_product_fits(m, m);
}

/// With `w * s * s == m * m * f + (m * e1 + e2)`, the rounded-down retention
/// is `max_age - f` when both remainders vanish and `max_age - f - 1`
/// otherwise, and never below `min_age`.
proof fn lemma_ceiling_split(
    min_age: int,
    max_age: int,
    w: int,
    s: int,
    m: int,
    x: int,
    q: int,
    rm: int,
    t1: int,
    t2: int,
    e2: int,
    y: int,
    f: int,
    e1: int,
)
    requires
        0 <= min_age <= max_age,
        w == max_age - min_age,
        0 <= s < m,
        x == w * s,
        x == m * q + rm,
        t1 == q * s,
        rm * s == m * t2 + e2,
        0 <= e2 < m,
        y == t1 + t2,
        y == m * f + e1,
        0 <= e1 < m,
        0 <= f,
    ensures
        ({
            let v = retention_for(min_age, max_age, m, s);
            &&& (e1 == 0 && e2 == 0) ==> v == max_age - f
            &&& !(e1 == 0 && e2 == 0) ==> v == max_age - f - 1
            &&& min_age <= v <= max_age
        }),
{
    let mm = m * m;
    let n = w * (s * s);
    let e = m * e1 + e2;
    assert(n == mm * f + e) by (nonlinear_arith)
        requires
            n == w * (s * s),
            mm == m * m,
            e == m * e1 + e2,
            x == w * s,
            x == m * q + rm,
            rm * s == m * t2 + e2,
            y == q * s + t2,
            y == m * f + e1,
    ;
    assert(0 <= e < mm) by (nonlinear_arith)
        requires
            e == m * e1 + e2,
            mm == m * m,
            0 <= e1 < m,
            0 <= e2 < m,
    ;
    assert(mm > 0) by (nonlinear_arith)
        requires
            mm == m * m,
            m > 0,
    ;
    assert(0 <= n <= w * mm) by (nonlinear_arith)
        requires
            n == w * (s * s),
            mm == m * m,
            0 <= s < m,
            0 <= w,
    ;
    let num = max_age * mm - n;
    assert(num == (max_age - f) * mm - e) by (nonlinear_arith)
        requires
            num == max_age * mm - n,
            n == mm * f + e,
    ;
    if e1 == 0 && e2 == 0 {
        assert(e == 0) by (nonlinear_arith)
            requires
                e == m * e1 + e2,
                e1 == 0,
                e2 == 0,
        ;
        lemma_fundamental_div_mod_converse(num, mm, max_age - f, 0);
    } else {
        assert(e > 0) by (nonlinear_arith)
            requires
                e == m * e1 + e2,
                e1 >= 0,
                e2 >= 0,
                m > 0,
                !(e1 == 0 && e2 == 0),
        ;
        assert(num == (max_age - f - 1) * mm + (mm - e)) by (nonlinear_arith)
            requires
                num == (max_age - f) * mm - e,
        ;
        lemma_fundamental_div_mod_converse(num, mm, max_age - f - 1, mm - e);
    }
    lemma_retention_bounds(min_age, max_age, m, s);
}

/// The retention always lies between the curve's two ages.
pub proof fn lemma_retention_bounds(min_age: int, max_age: int, max_size: int, size: int)
    requires
        0 <= min_age <= max_age,
        0 <= size,
    ensures
        min_age <= retention_for(min_age, max_age, max_size, size) <= max_age,
{
    if size < max_size {
        let m = max_size;
        let mm = m * m;
        let w = max_age - min_age;
        let n = w * (size * size);
        let num = max_age * mm - n;
        assert(mm > 0 && min_age * mm <= num <= max_age * mm) by (nonlinear_arith)
            requires
                mm == m * m,
                0 <= size < m,
                n == w * (size * size),
                w == max_age - min_age,
                0 <= w,
                num == max_age * mm - n,
        ;
        lemma_div_is_ordered(min_age * mm, num, mm);
        lemma_div_is_ordered(num, max_age * mm, mm);
        lemma_div_multiples_vanish(min_age, mm);
        lemma_div_multiples_vanish(max_age, mm);
        assert(min_age * mm == mm * min_age) by (nonlinear_arith);
        assert(max_age * mm == mm * max_age) by (nonlinear_arith);
    }
}

/// A bigger payload is never kept longer than a smaller one.
pub proof fn lemma_retention_non_increasing(
    min_age: int,
    max_age: int,
    max_size: int,
    small: int,
    large: int,
)
    requires
        0 <= min_age <= max_age,
        0 <= small <= large,
    ensures
        retention_for(min_age, max_age, max_size, small) >= retention_for(
            min_age,
            max_age,
            max_size,
            large,
        ),
{
    lemma_retention_bounds(min_age, max_age, max_size, small);
    if large < max_size {
        let m = max_size;
        let mm = m * m;
        let w = max_age - min_age;
        let num_small = max_age * mm - w * (small * small);
        let num_large = max_age * mm - w * (large * large);
        assert(mm > 0 && num_large <= num_small) by (nonlinear_arith)
            requires
                mm == m * m,
                0 <= small <= large < m,
                0 <= w,
                num_small == max_age * mm - w * (small * small),
                num_large == max_age * mm - w * (large * large),
        ;
        lemma_div_is_ordered(num_large, num_small, mm);
    }
}

} // verus!
