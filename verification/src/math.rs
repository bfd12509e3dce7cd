//! Whole-number arithmetic behind the chart: products divided without
//! overflow, the interval mapper, and exact point-to-segment distances.
use vstd::arithmetic::div_mod::lemma_fundamental_div_mod;
use vstd::arithmetic::div_mod::lemma_fundamental_div_mod_converse;
use vstd::prelude::*;

use crate::geometry::Point;

verus! {

/// Sum of two residues modulo `c`, with the carry into the quotient.
fn add_residues(x: u128, y: u128, c: u128) -> (out: (u128, u128))
    requires
        x < c,
        y < c,
    ensures
        out.0 < c,
        out.1 <= 1,
        x + y == out.1 * c + out.0,
{
    if x >= c - y {
        (x - (c - y), 1)
    } else {
        (x + y, 0)
    }
}

proof fn lemma_quotient_below(q: int, r: int, c: int, low: int, b: int)
    by (nonlinear_arith)
    requires
        0 < c,
        0 <= r,
        0 <= low < c,
        0 < b,
        q * c + r <= low * b,
    ensures
        q < b,
{
}

proof fn lemma_split_odd(n: int, half: int, t: int)
    by (nonlinear_arith)
    requires
        n == 2 * half + 1,
    ensures
        n * t == t + half * (2 * t),
{
}

proof fn lemma_split_even(n: int, half: int, t: int)
    by (nonlinear_arith)
    requires
        n == 2 * half,
    ensures
        n * t == half * (2 * t),
{
}

proof fn lemma_distribute(q: int, tq: int, carry: int, c: int)
    by (nonlinear_arith)
    ensures
        (q + tq + carry) * c == q * c + tq * c + carry * c,
{
}

proof fn lemma_term_below_total(half: int, t: int)
    by (nonlinear_arith)
    requires
        1 <= half,
        0 <= t,
    ensures
        t <= half * t,
{
}

/// `low * b` divided by `c`, for `low < c`: the quotient is below `b`, so
/// it always fits.
fn mul_div_reduced(low: u128, b: u128, c: u128) -> (out: (u128, u128))
    requires
        low < c,
    ensures
        out.1 < c,
        low * b == out.0 * c + out.1,
{
    let mut n: u128 = b;
    let mut q: u128 = 0;
    let mut r: u128 = 0;
    let mut tq: u128 = 0;
    let mut tr: u128 = low;
    let ghost mut t: int = low as int;
    proof {
        assert(low * b == 0 * c + 0 + b * t) by (nonlinear_arith)
            requires
                t == low,
        ;
        assert(t == 0 * c + low) by (nonlinear_arith)
            requires
                t == low,
        ;
    }
    while n > 0
        invariant
            low < c,
            n <= b,
            r < c,
            tr < c,
            0 <= t,
            t == tq * c + tr,
            low * b == q * c + r + n * t,
        decreases n,
    {
        let half: u128 = n / 2;
        if n % 2 == 1 {
            let (sum, carry) = add_residues(r, tr, c);
            proof {
                lemma_split_odd(n as int, half as int, t);
                lemma_distribute(q as int, tq as int, carry as int, c as int);
                assert(0 <= half * (2 * t)) by (nonlinear_arith)
                    requires
                        0 <= half,
                        0 <= t,
                ;
                lemma_quotient_below(q + tq + carry, sum as int, c as int, low as int, b as int);
            }
            q = q + tq + carry;
            r = sum;
        } else {
            proof {
                lemma_split_even(n as int, half as int, t);
            }
        }
        n = half;
        if n > 0 {
            let (sum, carry) = add_residues(tr, tr, c);
            proof {
                lemma_distribute(tq as int, tq as int, carry as int, c as int);
                lemma_term_below_total(n as int, 2 * t);
                assert(0 <= q * c) by (nonlinear_arith)
                    requires
                        0 <= q,
                        0 < c,
                ;
                lemma_quotient_below(tq + tq + carry, sum as int, c as int, low as int, b as int);
            }
            tq = tq + tq + carry;
            tr = sum;
            proof {
                t = 2 * t;
            }
        } else {
            proof {
                assert(n * (2 * t) == 0) by (nonlinear_arith)
                    requires
                        n == 0,
                ;
                assert(n * t == 0) by (nonlinear_arith)
                    requires
                        n == 0,
                ;
            }
        }
    }
    proof {
        assert(n * t == 0) by (nonlinear_arith)
            requires
                n == 0,
        ;
    }
    (q, r)
}

/// Quotient and remainder of the product `a * b` divided by `c`, without
/// overflow in between; `None` where the quotient itself does not fit.
pub fn mul_div(a: u128, b: u128, c: u128) -> (out: Option<(u128, u128)>)
    requires
        c > 0,
    ensures
        match out {
            Some((q, r)) => q == (a * b) / (c as int) && r == (a * b) % (c as int),
            None => (a * b) / (c as int) > u128::MAX,
        },
{
    let whole: u128 = a / c;
    let low: u128 = a % c;
    let (q, r) = mul_div_reduced(low, b, c);
    proof {
        lemma_fundamental_div_mod(a as int, c as int);
        assert(a * b == (whole * b + q) * c + r) by (nonlinear_arith)
            requires
                a == c * whole + low,
                low * b == q * c + r,
        ;
        lemma_fundamental_div_mod_converse(a * b, c as int, whole * b + q, r as int);
    }
    match whole.checked_mul(b) {
        None => None,
        Some(high) => match high.checked_add(q) {
            None => None,
            Some(total) => Some((total, r)),
        },
    }
}

/// Where `value` lands when the interval from `a1` to `b1` is laid over the
/// interval from `a2` to `b2`, keeping its relative place; rounded down to a
/// whole number. An interval of no width sends everything to the middle of
/// the target.
pub open spec fn interval_image(value: int, a1: int, b1: int, a2: int, b2: int) -> int {
    if a1 == b1 {
        (a2 + b2) / 2
    } else if a1 < b1 {
        a2 + ((value - a1) * (b2 - a2)) / (b1 - a1)
    } else {
        a2 + ((a1 - value) * (b2 - a2)) / (a1 - b1)
    }
}

/// The nearest value that a `u128` can hold.
pub open spec fn saturate_u128(v: int) -> u128 {
    if v < 0 {
        0
    } else if v > u128::MAX {
        u128::MAX
    } else {
        v as u128
    }
}

proof fn lemma_negated_quotient(n: int, d: int)
    requires
        0 <= n,
        0 < d,
    ensures
        (-n) / d == -(n / d) - (if n % d > 0 { 1int } else { 0int }),
{
    let q = n / d;
    let r = n % d;
    lemma_fundamental_div_mod(n, d);
    if r == 0 {
        assert(-n == (-q) * d + 0) by (nonlinear_arith)
            requires
                n == d * q + r,
                r == 0,
        ;
        lemma_fundamental_div_mod_converse(-n, d, -q, 0);
    } else {
        assert(-n == (-q - 1) * d + (d - r)) by (nonlinear_arith)
            requires
                n == d * q + r,
        ;
        lemma_fundamental_div_mod_converse(-n, d, -q - 1, d - r);
    }
}

proof fn lemma_signed_product(f: int, s: int, offset: int, span: int)
    by (nonlinear_arith)
    requires
        f == offset || f == -offset,
        s == span || s == -span,
    ensures
        (f == offset) == (s == span) ==> f * s == offset * span,
        (f == offset) != (s == span) ==> f * s == -(offset * span),
        f == -offset && s == -span ==> f * s == offset * span,
{
}

/// Maps `value` from the interval `from` to the same relative place in the
/// interval `to`. Either interval may run downwards. The result is rounded
/// down to a whole number, and held at the ends of the `u128` range where
/// the exact image lies outside it.
pub fn map_inverval_value(value: u128, from: (u128, u128), to: (u128, u128)) -> (mapped: u128)
    ensures
        mapped == saturate_u128(
            interval_image(value as int, from.0 as int, from.1 as int, to.0 as int, to.1 as int),
        ),
        from.0 == from.1 ==> mapped == (to.0 + to.1) / 2,
        from.0 != from.1 && value == from.0 ==> mapped == to.0,
        from.0 != from.1 && value == from.1 ==> mapped == to.1,
{
    let (a1, b1) = from;
    let (a2, b2) = to;
    if a1 == b1 {
        return a2 / 2 + b2 / 2 + (a2 % 2 + b2 % 2) / 2;
    }
    let width: u128 = if a1 < b1 { b1 - a1 } else { a1 - b1 };
    let offset: u128 = if value >= a1 { value - a1 } else { a1 - value };
    let span: u128 = if b2 >= a2 { b2 - a2 } else { a2 - b2 };
    let forward: bool = if a1 < b1 { value >= a1 } else { value <= a1 };
    let rising: bool = b2 >= a2;
    let ghost f: int = if a1 < b1 { value - a1 } else { a1 - value };
    let ghost s: int = b2 - a2;
    proof {
        lemma_signed_product(f, s, offset as int, span as int);
        lemma_negated_quotient(offset * span, width as int);
        lemma_interval_image_endpoints(a1 as int, b1 as int, a2 as int, b2 as int);
        assert(0 <= offset * span) by (nonlinear_arith)
            requires
                0 <= offset,
                0 <= span,
        ;
    }
    let quotient = mul_div(offset, span, width);
    if forward == rising || offset == 0 || span == 0 {
        proof {
            assert(offset == 0 || span == 0 ==> offset * span == 0 && f * s == 0)
                by (nonlinear_arith)
                requires
                    f == offset || f == -offset,
                    s == span || s == -span,
            ;
        }
        match quotient {
            None => u128::MAX,
            Some((q, _r)) => match a2.checked_add(q) {
                None => u128::MAX,
                Some(image) => image,
            },
        }
    } else {
        match quotient {
            None => 0,
            Some((q, r)) => if a2 > q {
                let rest: u128 = a2 - q;
                if r > 0 {
                    rest - 1
                } else {
                    rest
                }
            } else {
                0
            },
        }
    }
}

/// The ends of a source interval of some width land exactly on the ends of
/// the target interval.
pub proof fn lemma_interval_image_endpoints(a1: int, b1: int, a2: int, b2: int)
    requires
        a1 != b1,
    ensures
        interval_image(a1, a1, b1, a2, b2) == a2,
        interval_image(b1, a1, b1, a2, b2) == b2,
{
    let w = if a1 < b1 { b1 - a1 } else { a1 - b1 };
    assert(0 * (b2 - a2) == 0) by (nonlinear_arith);
    assert(0int / w == 0) by (nonlinear_arith)
        requires
            w > 0,
    ;
    assert(w * (b2 - a2) == (b2 - a2) * w + 0) by (nonlinear_arith);
    lemma_fundamental_div_mod_converse(w * (b2 - a2), w, b2 - a2, 0);
}

/// A source interval of no width sends every value to the middle of the
/// target interval.
pub proof fn lemma_interval_image_degenerate(value: int, a: int, a2: int, b2: int)
    ensures
        interval_image(value, a, a, a2, b2) == (a2 + b2) / 2,
{
}

/// The mapping is affine: the image is the exact affine value
/// `a2 + (value - a1) * (b2 - a2) / (b1 - a1)` rounded down, so it lies
/// less than one unit below it; and moving the value by whole widths of the
/// source moves the image by as many whole widths of the target.
pub proof fn lemma_interval_image_affine(value: int, a1: int, b1: int, a2: int, b2: int, k: int)
    requires
        a1 != b1,
    ensures
        ({
            let image = interval_image(value, a1, b1, a2, b2);
            let exact = (value - a1) * (b2 - a2);
            &&& a1 < b1 ==> (image - a2) * (b1 - a1) <= exact < (image - a2 + 1) * (b1 - a1)
            &&& a1 > b1 ==> (image - a2) * (b1 - a1) >= exact > (image - a2 + 1) * (b1 - a1)
            &&& interval_image(value + k * (b1 - a1), a1, b1, a2, b2) == image + k * (b2 - a2)
        }),
{
    let w = if a1 < b1 { b1 - a1 } else { a1 - b1 };
    let f = if a1 < b1 { value - a1 } else { a1 - value };
    let n = f * (b2 - a2);
    let image = interval_image(value, a1, b1, a2, b2);
    let q = n / w;
    let r = n % w;
    lemma_fundamental_div_mod(n, w);
    assert(image - a2 == q);
    assert(q * w <= n < (q + 1) * w) by (nonlinear_arith)
        requires
            n == w * q + r,
            0 <= r < w,
    ;
    if a1 < b1 {
    } else {
        assert(q * (b1 - a1) == -(q * w) && (q + 1) * (b1 - a1) == -((q + 1) * w) && (value - a1)
            * (b2 - a2) == -n) by (nonlinear_arith)
            requires
                w == a1 - b1,
                n == (a1 - value) * (b2 - a2),
        ;
    }
    let f2 = if a1 < b1 { value + k * (b1 - a1) - a1 } else { a1 - (value + k * (b1 - a1)) };
    assert(k * (b1 - a1) == if a1 < b1 { k * w } else { -(k * w) }) by (nonlinear_arith)
        requires
            w == if a1 < b1 { b1 - a1 } else { a1 - b1 },
    ;
    assert(f2 * (b2 - a2) == (q + k * (b2 - a2)) * w + r) by (nonlinear_arith)
        requires
            f2 == f + k * w,
            f * (b2 - a2) == w * q + r,
    ;
    lemma_fundamental_div_mod_converse(f2 * (b2 - a2), w, q + k * (b2 - a2), r);
}

/// The mapping keeps order: where both intervals run the same way a larger
/// value never has a smaller image, and where they run opposite ways it
/// never has a larger one.
pub proof fn lemma_interval_image_monotone(v: int, w: int, a1: int, b1: int, a2: int, b2: int)
    requires
        a1 != b1,
        v <= w,
    ensures
        (a1 < b1) == (a2 <= b2) ==> interval_image(v, a1, b1, a2, b2) <= interval_image(
            w,
            a1,
            b1,
            a2,
            b2,
        ),
        (a1 < b1) == (a2 >= b2) ==> interval_image(v, a1, b1, a2, b2) >= interval_image(
            w,
            a1,
            b1,
            a2,
            b2,
        ),
{
    let d = if a1 < b1 { b1 - a1 } else { a1 - b1 };
    let fv = if a1 < b1 { v - a1 } else { a1 - v };
    let fw = if a1 < b1 { w - a1 } else { a1 - w };
    let s = b2 - a2;
    if (a1 < b1) == (a2 <= b2) {
        assert(fv * s <= fw * s) by (nonlinear_arith)
            requires
                (fv <= fw && s >= 0) || (fv >= fw && s <= 0),
        ;
        vstd::arithmetic::div_mod::lemma_div_is_ordered(fv * s, fw * s, d);
    }
    if (a1 < b1) == (a2 >= b2) {
        assert(fv * s >= fw * s) by (nonlinear_arith)
            requires
                (fv <= fw && s <= 0) || (fv >= fw && s >= 0),
        ;
        vstd::arithmetic::div_mod::lemma_div_is_ordered(fw * s, fv * s, d);
    }
}

/// Square of the distance between two points.
pub open spec fn point_distance_squared(p: Point, q: Point) -> int {
    (p.x - q.x) * (p.x - q.x) + (p.y - q.y) * (p.y - q.y)
}

/// Square of the length of the segment from `a` to `b`.
pub open spec fn segment_length_squared(a: Point, b: Point) -> int {
    point_distance_squared(b, a)
}

/// How far along the segment from `a` to `b` the point `p` lies, times the
/// squared length of the segment: the dot product of `p - a` and `b - a`.
pub open spec fn segment_dot(p: Point, a: Point, b: Point) -> int {
    (p.x - a.x) * (b.x - a.x) + (p.y - a.y) * (b.y - a.y)
}

/// How far `p` lies off the line through `a` and `b`, times the length of
/// the segment: the cross product of `p - a` and `b - a`.
pub open spec fn segment_cross(p: Point, a: Point, b: Point) -> int {
    (p.x - a.x) * (b.y - a.y) - (p.y - a.y) * (b.x - a.x)
}

/// Square of the distance from `p` to the segment from `a` to `b`, as a
/// fraction: numerator and denominator. Before `a` it is the distance to
/// `a`, beyond `b` the distance to `b`, and in between the distance to the
/// line. A segment of no length counts as its one point.
pub open spec fn segment_distance_squared(p: Point, a: Point, b: Point) -> (int, int) {
    let length = segment_length_squared(a, b);
    let dot = segment_dot(p, a, b);
    if length == 0 || dot < 0 {
        (point_distance_squared(p, a), 1)
    } else if dot > length {
        (point_distance_squared(p, b), 1)
    } else {
        (segment_cross(p, a, b) * segment_cross(p, a, b), length)
    }
}

/// Whether `p` is a point of the segment from `a` to `b`: `a` plus a
/// fraction `s / n` between 0 and 1 of the way to `b`.
pub open spec fn on_segment(p: Point, a: Point, b: Point) -> bool {
    exists|s: int, n: int| lies_at(p, a, b, s, n)
}

/// `p` is `a` plus `s / n` of the way to `b`, with `0 <= s / n <= 1`.
pub open spec fn lies_at(p: Point, a: Point, b: Point, s: int, n: int) -> bool {
    &&& 0 < n
    &&& 0 <= s <= n
    &&& n * (p.x - a.x) == s * (b.x - a.x)
    &&& n * (p.y - a.y) == s * (b.y - a.y)
}

/// An exact squared distance on the pixel grid: `whole` square pixels and
/// `rest / denominator` of one more.
#[derive(Clone, Copy, Debug, PartialEq, Eq, Structural)]
pub struct SquaredDistance {
    pub whole: u128,
    pub rest: u128,
    pub denominator: u128,
}

impl SquaredDistance {
    /// The rest is less than a whole: below the denominator.
    pub open spec fn wf(&self) -> bool {
        self.rest < self.denominator
    }

    /// The distance as one fraction: its numerator over the denominator.
    pub open spec fn numerator(&self) -> int {
        self.whole * self.denominator + self.rest
    }

    /// The fraction `numerator / denominator` as a squared distance.
    pub open spec fn of(numerator: int, denominator: int) -> SquaredDistance {
        SquaredDistance {
            whole: (numerator / denominator) as u128,
            rest: (numerator % denominator) as u128,
            denominator: denominator as u128,
        }
    }

    /// Whether the distance is at most `reach` pixels.
    pub open spec fn within(&self, reach: u16) -> bool {
        self.numerator() <= reach * reach * self.denominator
    }

    /// Whether `self` is a shorter distance than `other`.
    pub open spec fn shorter_than(&self, other: &SquaredDistance) -> bool {
        self.numerator() * other.denominator < other.numerator() * self.denominator
    }

    pub fn is_zero(&self) -> (zero: bool)
        requires
            self.wf(),
        ensures
            zero == (self.numerator() == 0),
    {
        proof {
            assert(self.whole * self.denominator >= 0 && (self.whole > 0 ==> self.whole
                * self.denominator > 0)) by (nonlinear_arith)
                requires
                    self.denominator > 0,
            ;
        }
        self.whole == 0 && self.rest == 0
    }

    pub fn is_within(&self, reach: u16) -> (near: bool)
        requires
            self.wf(),
        ensures
            near == self.within(reach),
    {
        let r: u128 = reach as u128;
        assert(r * r <= 0xffff * 0xffff) by (nonlinear_arith)
            requires
                0 <= r <= 0xffff,
        ;
        let square: u128 = r * r;
        proof {
            lemma_mixed_order(
                self.whole as int,
                self.rest as int,
                self.denominator as int,
                square as int,
                0,
                1,
            );
            assert(square * 1 + 0 == square && (square * self.denominator) * 1 == reach * reach
                * self.denominator) by (nonlinear_arith)
                requires
                    square == reach * reach,
            ;
        }
        self.whole < square || (self.whole == square && self.rest == 0)
    }

    pub fn is_shorter_than(&self, other: &SquaredDistance) -> (shorter: bool)
        requires
            self.wf(),
            other.wf(),
        ensures
            shorter == self.shorter_than(other),
    {
        proof {
            lemma_mixed_order(
                self.whole as int,
                self.rest as int,
                self.denominator as int,
                other.whole as int,
                other.rest as int,
                other.denominator as int,
            );
            lemma_quotient_compares(
                self.rest * other.denominator,
                self.denominator as int,
                other.rest as int,
            );
        }
        if self.whole != other.whole {
            self.whole < other.whole
        } else {
            match mul_div(self.rest, other.denominator, self.denominator) {
                None => false,
                Some((q, _r)) => q < other.rest,
            }
        }
    }
}

/// How two mixed fractions compare: by their wholes, and where these are
/// equal by their rests.
proof fn lemma_mixed_order(w1: int, r1: int, d1: int, w2: int, r2: int, d2: int)
    requires
        0 <= r1 < d1,
        0 <= r2 < d2,
    ensures
        w1 < w2 ==> (w1 * d1 + r1) * d2 < (w2 * d2 + r2) * d1,
        w1 > w2 ==> (w1 * d1 + r1) * d2 > (w2 * d2 + r2) * d1,
        w1 == w2 ==> ((w1 * d1 + r1) * d2 < (w2 * d2 + r2) * d1 <==> r1 * d2 < r2 * d1),
        w1 == w2 ==> ((w1 * d1 + r1) * d2 <= (w2 * d2 + r2) * d1 <==> r1 * d2 <= r2 * d1),
{
    let m = d1 * d2;
    assert((w1 * d1 + r1) * d2 == w1 * m + r1 * d2 && (w2 * d2 + r2) * d1 == w2 * m + r2 * d1)
        by (nonlinear_arith)
        requires
            m == d1 * d2,
    ;
    assert(0 <= r1 * d2 < m && 0 <= r2 * d1 < m) by (nonlinear_arith)
        requires
            0 <= r1 < d1,
            0 <= r2 < d2,
            m == d1 * d2,
    ;
    assert(w1 < w2 ==> w1 * m + m <= w2 * m) by (nonlinear_arith)
        requires
            0 < m,
    ;
    assert(w1 > w2 ==> w2 * m + m <= w1 * m) by (nonlinear_arith)
        requires
            0 < m,
    ;
}

/// The square of the distance between two points is not negative and fits
/// the whole of a squared distance.
pub proof fn lemma_point_distance_fits(p: Point, q: Point)
    ensures
        0 <= point_distance_squared(p, q) <= 2 * 0xffff_ffff * 0xffff_ffff,
{
    lemma_product_bound(p.x - q.x, p.x - q.x, 0xffff_ffff);
    lemma_product_bound(p.y - q.y, p.y - q.y, 0xffff_ffff);
    assert((p.x - q.x) * (p.x - q.x) >= 0 && (p.y - q.y) * (p.y - q.y) >= 0) by (nonlinear_arith);
}

/// The square of the distance from a point to a segment, taken as a
/// squared distance, is that fraction: nothing of it is lost.
pub proof fn lemma_segment_distance_fits(p: Point, a: Point, b: Point)
    ensures
        ({
            let (numerator, denominator) = segment_distance_squared(p, a, b);
            let distance = SquaredDistance::of(numerator, denominator);
            &&& 0 <= numerator
            &&& 0 < denominator <= 2 * 0xffff_ffff * 0xffff_ffff
            &&& numerator / denominator <= 2 * 0xffff_ffff * 0xffff_ffff
            &&& distance.wf()
            &&& distance.numerator() == numerator
            &&& distance.denominator == denominator
        }),
{
    let (numerator, denominator) = segment_distance_squared(p, a, b);
    let length = segment_length_squared(a, b);
    let dot = segment_dot(p, a, b);
    let cross = segment_cross(p, a, b);
    lemma_point_distance_fits(p, a);
    lemma_point_distance_fits(p, b);
    lemma_point_distance_fits(b, a);
    if length == 0 || dot < 0 || dot > length {
    } else {
        lemma_lagrange(p.x - a.x, p.y - a.y, b.x - a.x, b.y - a.y);
        assert(cross * cross >= 0) by (nonlinear_arith);
        let near = point_distance_squared(p, a);
        assert(cross * cross <= near * length);
        assert(near * length == length * near) by (nonlinear_arith);
        vstd::arithmetic::div_mod::lemma_div_is_ordered(cross * cross, length * near, length);
        vstd::arithmetic::div_mod::lemma_div_multiples_vanish(near, length);
    }
    lemma_fundamental_div_mod(numerator, denominator);
    assert(0 <= numerator / denominator) by (nonlinear_arith)
        requires
            numerator == denominator * (numerator / denominator) + numerator % denominator,
            0 <= numerator,
            0 <= numerator % denominator < denominator,
    ;
    assert(denominator * (numerator / denominator) == (numerator / denominator) * denominator)
        by (nonlinear_arith);
}

/// Distance between two points, as an exact square.
pub fn point_distance(from: Point, to: Point) -> (distance: SquaredDistance)
    ensures
        distance.wf(),
        distance == (SquaredDistance {
            whole: point_distance_squared(from, to) as u128,
            rest: 0,
            denominator: 1,
        }),
        distance.numerator() == point_distance_squared(from, to),
{
    let a: i128 = from.x as i128 - to.x as i128;
    let b: i128 = from.y as i128 - to.y as i128;
    proof {
        lemma_product_bound(a as int, a as int, 0xffff_ffff);
        lemma_product_bound(b as int, b as int, 0xffff_ffff);
        assert(a * a >= 0 && b * b >= 0) by (nonlinear_arith);
    }
    let whole = (a * a + b * b) as u128;
    assert(whole * 1 + 0 == whole) by (nonlinear_arith);
    SquaredDistance { whole, rest: 0, denominator: 1 }
}

/// Of three distances, one shorter than a second that is not longer than
/// a third is shorter than the third.
pub proof fn lemma_shorter_than_chains(a: SquaredDistance, b: SquaredDistance, c: SquaredDistance)
    requires
        a.wf(),
        b.wf(),
        c.wf(),
        a.shorter_than(&b) && !c.shorter_than(&b) || !b.shorter_than(&a) && b.shorter_than(&c),
    ensures
        a.shorter_than(&c),
        !c.shorter_than(&a),
{
    let (an, ad) = (a.numerator(), a.denominator as int);
    let (bn, bd) = (b.numerator(), b.denominator as int);
    let (cn, cd) = (c.numerator(), c.denominator as int);
    if a.shorter_than(&b) && !c.shorter_than(&b) {
        assert((an * bd) * cd < (bn * ad) * cd) by (nonlinear_arith)
            requires
                an * bd < bn * ad,
                cd > 0,
        ;
        assert((bn * cd) * ad <= (cn * bd) * ad) by (nonlinear_arith)
            requires
                bn * cd <= cn * bd,
                ad > 0,
        ;
    } else {
        assert((an * bd) * cd <= (bn * ad) * cd) by (nonlinear_arith)
            requires
                an * bd <= bn * ad,
                cd > 0,
        ;
        assert((bn * cd) * ad < (cn * bd) * ad) by (nonlinear_arith)
            requires
                bn * cd < cn * bd,
                ad > 0,
        ;
    }
    assert((an * bd) * cd == (an * cd) * bd && (bn * ad) * cd == (bn * cd) * ad && (cn * bd) * ad
        == (cn * ad) * bd) by (nonlinear_arith);
    assert(an * cd < cn * ad) by (nonlinear_arith)
        requires
            (an * cd) * bd < (cn * ad) * bd,
            bd > 0,
    ;
}

proof fn lemma_quotient_compares(x: int, d: int, n: int)
    requires
        0 < d,
    ensures
        x / d < n <==> x < n * d,
{
    lemma_fundamental_div_mod(x, d);
    let q = x / d;
    let r = x % d;
    assert(q < n ==> x < n * d) by (nonlinear_arith)
        requires
            x == d * q + r,
            0 <= r < d,
    ;
    assert(q >= n ==> x >= n * d) by (nonlinear_arith)
        requires
            x == d * q + r,
            0 <= r < d,
    ;
}

proof fn lemma_product_bound(x: int, y: int, m: int)
    by (nonlinear_arith)
    requires
        -m <= x <= m,
        -m <= y <= m,
    ensures
        -(m * m) <= x * y <= m * m,
{
}

/// Distance from `point` to the segment between `path_point1` and
/// `path_point2` (not to the line through them), as an exact square.
pub fn point_to_interval_distance(point: Point, path_point1: Point, path_point2: Point) -> (distance:
    SquaredDistance)
    ensures
        distance.wf(),
        distance == SquaredDistance::of(
            segment_distance_squared(point, path_point1, path_point2).0,
            segment_distance_squared(point, path_point1, path_point2).1,
        ),
        distance.numerator() == segment_distance_squared(point, path_point1, path_point2).0,
        distance.denominator == segment_distance_squared(point, path_point1, path_point2).1,
{
    let a: i128 = point.x as i128 - path_point1.x as i128;
    let b: i128 = point.y as i128 - path_point1.y as i128;
    let c: i128 = path_point2.x as i128 - path_point1.x as i128;
    let d: i128 = path_point2.y as i128 - path_point1.y as i128;
    proof {
        lemma_segment_distance_fits(point, path_point1, path_point2);
        lemma_product_bound(a as int, c as int, 0xffff_ffff);
        lemma_product_bound(b as int, d as int, 0xffff_ffff);
        lemma_product_bound(c as int, c as int, 0xffff_ffff);
        lemma_product_bound(d as int, d as int, 0xffff_ffff);
        lemma_product_bound(a as int, d as int, 0xffff_ffff);
        lemma_product_bound(b as int, c as int, 0xffff_ffff);
        assert(c * c >= 0 && d * d >= 0) by (nonlinear_arith);
    }
    let dot: i128 = a * c + b * d;
    let len_sq: i128 = c * c + d * d;
    if len_sq == 0 || dot < 0 {
        point_distance(point, path_point1)
    } else if dot > len_sq {
        point_distance(point, path_point2)
    } else {
        let cross: i128 = a * d - b * c;
        let side: u128 = if cross < 0 { (-cross) as u128 } else { cross as u128 };
        proof {
            assert(side * side == cross * cross) by (nonlinear_arith)
                requires
                    side == cross || side == -cross,
            ;
        }
        match mul_div(side, side, len_sq as u128) {
            Some((whole, rest)) => SquaredDistance { whole, rest, denominator: len_sq as u128 },
            None => SquaredDistance { whole: 0, rest: 0, denominator: 1 },
        }
    }
}

proof fn lemma_square_zero(x: int, y: int)
    by (nonlinear_arith)
    requires
        x * x + y * y == 0,
    ensures
        x == 0,
        y == 0,
{
}

proof fn lemma_foot_from_cross(a: int, b: int, c: int, d: int)
    by (nonlinear_arith)
    requires
        a * d - b * c == 0,
    ensures
        (c * c + d * d) * a == (a * c + b * d) * c,
        (c * c + d * d) * b == (a * c + b * d) * d,
{
}

proof fn lemma_cross_from_foot(a: int, b: int, c: int, d: int, s: int, n: int)
    requires
        0 < n,
        0 <= s <= n,
        n * a == s * c,
        n * b == s * d,
    ensures
        a * d - b * c == 0,
        0 <= a * c + b * d <= c * c + d * d,
        c * c + d * d == 0 ==> a * a + b * b == 0,
{
    assert(n * (a * d - b * c) == 0) by (nonlinear_arith)
        requires
            n * a == s * c,
            n * b == s * d,
    ;
    assert(n * (a * c + b * d) == s * (c * c + d * d)) by (nonlinear_arith)
        requires
            n * a == s * c,
            n * b == s * d,
    ;
    assert(c * c + d * d >= 0) by (nonlinear_arith);
    assert(a * d - b * c == 0) by (nonlinear_arith)
        requires
            n * (a * d - b * c) == 0,
            0 < n,
    ;
    assert(0 <= a * c + b * d <= c * c + d * d) by (nonlinear_arith)
        requires
            n * (a * c + b * d) == s * (c * c + d * d),
            0 < n,
            0 <= s <= n,
            c * c + d * d >= 0,
    ;
    if c * c + d * d == 0 {
        lemma_square_zero(c, d);
        assert(n * a == 0 && n * b == 0) by (nonlinear_arith)
            requires
                n * a == s * c,
                n * b == s * d,
                c == 0,
                d == 0,
        ;
        assert(a == 0 && b == 0) by (nonlinear_arith)
            requires
                n * a == 0,
                n * b == 0,
                0 < n,
        ;
        assert(a * a + b * b == 0) by (nonlinear_arith)
            requires
                a == 0,
                b == 0,
        ;
    }
}

/// The distance from a point to a segment is zero exactly where the point
/// lies on the segment.
pub proof fn lemma_distance_zero_iff_on_segment(p: Point, a: Point, b: Point)
    ensures
        segment_distance_squared(p, a, b).0 == 0 <==> on_segment(p, a, b),
{
    let length = segment_length_squared(a, b);
    let dot = segment_dot(p, a, b);
    let cross = segment_cross(p, a, b);
    let (pa, pb) = (p.x - a.x, p.y - a.y);
    let (ba, bb) = (b.x - a.x, b.y - a.y);
    if segment_distance_squared(p, a, b).0 == 0 {
        if length == 0 || dot < 0 {
            lemma_square_zero(pa, pb);
            assert(lies_at(p, a, b, 0, 1));
        } else if dot > length {
            lemma_square_zero(p.x - b.x, p.y - b.y);
            assert(lies_at(p, a, b, 1, 1));
        } else {
            lemma_square_zero(cross, 0);
            lemma_foot_from_cross(pa, pb, ba, bb);
            assert(lies_at(p, a, b, dot, length));
        }
    }
    if on_segment(p, a, b) {
        let (s, n) = choose|s: int, n: int| lies_at(p, a, b, s, n);
        lemma_cross_from_foot(pa, pb, ba, bb, s, n);
        assert(cross * cross == 0) by (nonlinear_arith)
            requires
                cross == 0,
        ;
    }
}

/// Where the foot of the perpendicular from the point falls outside the
/// segment, the distance is the distance to the nearer end: to `a` before
/// the segment, to `b` beyond it.
pub proof fn lemma_distance_outside_is_to_nearer_end(p: Point, a: Point, b: Point)
    ensures
        segment_dot(p, a, b) < 0 ==> segment_distance_squared(p, a, b) == (
            point_distance_squared(p, a),
            1int,
        ) && point_distance_squared(p, a) <= point_distance_squared(p, b),
        segment_dot(p, a, b) > segment_length_squared(a, b) ==> segment_distance_squared(p, a, b)
            == (point_distance_squared(p, b), 1int) && point_distance_squared(p, b)
            <= point_distance_squared(p, a),
{
    let (pa, pb) = (p.x - a.x, p.y - a.y);
    let (ba, bb) = (b.x - a.x, b.y - a.y);
    assert((pa - ba) * (pa - ba) + (pb - bb) * (pb - bb) == (pa * pa + pb * pb) - 2 * (pa * ba + pb
        * bb) + (ba * ba + bb * bb)) by (nonlinear_arith);
    assert(ba * ba + bb * bb >= 0) by (nonlinear_arith);
    if segment_length_squared(a, b) == 0 {
        lemma_square_zero(ba, bb);
        assert(pa * ba + pb * bb == 0) by (nonlinear_arith)
            requires
                ba == 0,
                bb == 0,
        ;
    }
}

proof fn lemma_square_of_difference(x: int, y: int)
    by (nonlinear_arith)
    ensures
        (x - y) * (x - y) == x * x - 2 * (x * y) + y * y,
        (x + y) * (x + y) == x * x + 2 * (x * y) + y * y,
        (x + y) * (x + y) >= 0,
{
}

proof fn lemma_regroup(a: int, b: int, c: int, d: int)
    by (nonlinear_arith)
    ensures
        (a * b) * (c * d) == (a * c) * (b * d),
        (a * b) * (c * d) == (a * d) * (c * b),
{
}

proof fn lemma_expand(u1: int, u2: int, v1: int, v2: int)
    by (nonlinear_arith)
    ensures
        (u1 + u2) * (v1 + v2) == u1 * v1 + u1 * v2 + u2 * v1 + u2 * v2,
        u1 * (v1 + v2) == u1 * v1 + u1 * v2,
        (u1 - u2) * v1 == u1 * v1 - u2 * v1,
{
}

proof fn lemma_lagrange(ux: int, uy: int, vx: int, vy: int)
    ensures
        (ux * ux + uy * uy) * (vx * vx + vy * vy) == (ux * vy - uy * vx) * (ux * vy - uy * vx) + (ux
            * vx + uy * vy) * (ux * vx + uy * vy),
        (ux * vx + uy * vy) * (ux * vx + uy * vy) >= 0,
{
    lemma_square_of_difference(ux * vy, uy * vx);
    lemma_square_of_difference(ux * vx, uy * vy);
    lemma_regroup(ux, vy, uy, vx);
    lemma_regroup(ux, vy, ux, vy);
    lemma_regroup(uy, vx, uy, vx);
    lemma_regroup(ux, vx, ux, vx);
    lemma_regroup(uy, vy, uy, vy);
    lemma_expand(ux * ux, uy * uy, vx * vx, vy * vy);
}

proof fn lemma_offset_square(n: int, s: int, a: int, b: int, c: int, d: int)
    ensures
        (n * a - s * c) * (n * a - s * c) + (n * b - s * d) * (n * b - s * d) == n * n * (a * a + b
            * b) - 2 * (n * s) * (a * c + b * d) + s * s * (c * c + d * d),
        (n * a - s * c) * d - (n * b - s * d) * c == n * (a * d - b * c),
{
    lemma_square_of_difference(n * a, s * c);
    lemma_square_of_difference(n * b, s * d);
    lemma_regroup(n, a, n, a);
    lemma_regroup(n, b, n, b);
    lemma_regroup(s, c, s, c);
    lemma_regroup(s, d, s, d);
    lemma_regroup(n, a, s, c);
    lemma_regroup(n, b, s, d);
    lemma_expand(n * n, 0, a * a, b * b);
    lemma_expand(s * s, 0, c * c, d * d);
    lemma_expand(n * s, 0, a * c, b * d);
    assert(2 * ((n * s) * (a * c)) + 2 * ((n * s) * (b * d)) == 2 * (n * s) * (a * c + b * d))
        by (nonlinear_arith)
        requires
            (n * s) * (a * c + b * d) == (n * s) * (a * c) + (n * s) * (b * d),
    ;
    lemma_expand(n * a, s * c, d, 0);
    lemma_expand(n * b, s * d, c, 0);
    assert((n * a) * d == n * (a * d) && (n * b) * c == n * (b * c) && (s * c) * d == (s * d) * c)
        by (nonlinear_arith);
    assert(n * (a * d - b * c) == n * (a * d) - n * (b * c)) by (nonlinear_arith);
}

/// No point of the segment is nearer: for the point `a + (s / n) * (b - a)`
/// of the segment, scaled by `n` to stay in whole numbers, the squared
/// distance from `p` is at least the one that `segment_distance_squared`
/// gives.
pub proof fn lemma_segment_distance_is_least(p: Point, a: Point, b: Point, s: int, n: int)
    requires
        0 < n,
        0 <= s <= n,
    ensures
        ({
            let (numerator, denominator) = segment_distance_squared(p, a, b);
            let dx = n * (p.x - a.x) - s * (b.x - a.x);
            let dy = n * (p.y - a.y) - s * (b.y - a.y);
            numerator * (n * n) <= denominator * (dx * dx + dy * dy)
        }),
{
    let length = segment_length_squared(a, b);
    let dot = segment_dot(p, a, b);
    let cross = segment_cross(p, a, b);
    let (pa, pb) = (p.x - a.x, p.y - a.y);
    let (ba, bb) = (b.x - a.x, b.y - a.y);
    let dx = n * pa - s * ba;
    let dy = n * pb - s * bb;
    lemma_offset_square(n, s, pa, pb, ba, bb);
    assert(length >= 0 && pa * pa + pb * pb >= 0) by (nonlinear_arith)
        requires
            length == ba * ba + bb * bb,
    ;
    if length == 0 || dot < 0 {
        if length == 0 {
            lemma_square_zero(ba, bb);
            assert(dot == 0) by (nonlinear_arith)
                requires
                    dot == pa * ba + pb * bb,
                    ba == 0,
                    bb == 0,
            ;
        }
        assert((pa * pa + pb * pb) * (n * n) <= n * n * (pa * pa + pb * pb) - 2 * (n * s) * dot + s
            * s * length) by (nonlinear_arith)
            requires
                dot <= 0,
                length >= 0,
                0 < n,
                0 <= s,
        ;
    } else if dot > length {
        let (ea, eb) = (p.x - b.x, p.y - b.y);
        assert(ea * ea + eb * eb == (pa * pa + pb * pb) - 2 * dot + length) by (nonlinear_arith)
            requires
                ea == pa - ba,
                eb == pb - bb,
                dot == pa * ba + pb * bb,
                length == ba * ba + bb * bb,
        ;
        let m = pa * pa + pb * pb;
        assert((m - 2 * dot + length) * (n * n) <= n * n * m - 2 * (n * s) * dot + s * s * length)
            by (nonlinear_arith)
            requires
                dot > length,
                length >= 0,
                0 < n,
                0 <= s <= n,
        ;
    } else {
        lemma_lagrange(dx, dy, ba, bb);
        assert((cross * cross) * (n * n) == (n * cross) * (n * cross)) by (nonlinear_arith);
        assert(length * (dx * dx + dy * dy) == (dx * dx + dy * dy) * length) by (nonlinear_arith);
    }
}

} // verus!
