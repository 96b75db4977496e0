use vstd::arithmetic::div_mod::lemma_fundamental_div_mod;
use vstd::prelude::*;

verus! {

/// Nanoseconds in one second: every time value of the library is a count of nanoseconds.
pub const NANOS_PER_SEC: u64 = 1_000_000_000;

/// Bytes in one mebibyte, the unit in which throughput is shown.
pub const BYTES_PER_MIB: u64 = 1_048_576;

/// `count` units (reads, bytes) observed over `span` nanoseconds.
///
/// A rate is kept as this exact fraction; its value per second is
/// `count * NANOS_PER_SEC / span`, and zero when the span is empty.
#[derive(Clone, Copy, Debug, PartialEq, Eq, Structural)]
pub struct Rate {
    pub count: u128,
    pub span: u64,
}

/// `a` is a strictly higher rate than `b`: `a.count / a.span > b.count / b.span`,
/// where a rate over an empty span counts as zero.
pub open spec fn rate_gt(a: Rate, b: Rate) -> bool {
    if a.span == 0 {
        false
    } else if b.span == 0 {
        a.count > 0
    } else {
        a.count * b.span > b.count * a.span
    }
}

/// `n / d` rounded to the nearest integer, halves rounded up.
pub open spec fn rounded_div(n: int, d: int) -> int {
    (2 * n + d) / (2 * d)
}

/// Events per second for `count` events over `span` nanoseconds, rounded to the
/// nearest integer and capped at `u64::MAX`; zero for an empty span.
pub open spec fn per_second(count: int, span: int) -> int {
    if span <= 0 {
        0
    } else {
        let r = rounded_div(count * NANOS_PER_SEC, span);
        if r > u64::MAX {
            u64::MAX as int
        } else {
            r
        }
    }
}

/// Rounded events per second for `count` events over `span` nanoseconds.
pub fn per_second_rounded(count: u64, span: u64) -> (r: u64)
    ensures
        r == per_second(count as int, span as int),
{
    if span == 0 {
        return 0;
    }
    proof {
        assert(count as int * NANOS_PER_SEC as int <= u64::MAX as int * NANOS_PER_SEC as int)
            by (nonlinear_arith)
            requires
                count <= u64::MAX,
        ;
    }
    let scaled: u128 = count as u128 * NANOS_PER_SEC as u128;
    let twice_span: u128 = 2 * span as u128;
    let q: u128 = (2 * scaled + span as u128) / twice_span;
    if q > u64::MAX as u128 {
        u64::MAX
    } else {
        q as u64
    }
}

proof fn lemma_cross_compare(a: int, b: int, c: int, d: int)
    requires
        a >= 0,
        c >= 0,
        b > 0,
        d > 0,
    ensures
        (a * d > c * b) == (if a / b != c / d {
            a / b > c / d
        } else {
            (a % b) * d > (c % d) * b
        }),
{
    let qa = a / b;
    let ra = a % b;
    let qc = c / d;
    let rc = c % d;
    lemma_fundamental_div_mod(a, b);
    lemma_fundamental_div_mod(c, d);
    assert(0 <= ra < b);
    assert(0 <= rc < d);
    assert(a * d == qa * (b * d) + ra * d) by (nonlinear_arith)
        requires
            a == b * qa + ra,
    ;
    assert(c * b == qc * (b * d) + rc * b) by (nonlinear_arith)
        requires
            c == d * qc + rc,
    ;
    assert(ra * d < b * d) by (nonlinear_arith)
        requires
            0 <= ra < b,
            d > 0,
    ;
    assert(rc * b < b * d) by (nonlinear_arith)
        requires
            0 <= rc < d,
            b > 0,
    ;
    assert(0 <= ra * d) by (nonlinear_arith)
        requires
            0 <= ra,
            d > 0,
    ;
    assert(0 <= rc * b) by (nonlinear_arith)
        requires
            0 <= rc,
            b > 0,
    ;
    if qa > qc {
        assert(qa * (b * d) >= qc * (b * d) + b * d) by (nonlinear_arith)
            requires
                qa >= qc + 1,
                b * d > 0,
        ;
    } else if qa < qc {
        assert(qc * (b * d) >= qa * (b * d) + b * d) by (nonlinear_arith)
            requires
                qc >= qa + 1,
                b * d > 0,
        ;
    }
}

proof fn lemma_rate_gt_after_le_positive(x: Rate, y: Rate, z: Rate)
    requires
        x.span > 0,
        y.span > 0,
        z.span > 0,
        !rate_gt(x, y),
        rate_gt(z, y),
    ensures
        rate_gt(z, x),
{
    let (xc, xs) = (x.count as int, x.span as int);
    let (yc, ys) = (y.count as int, y.span as int);
    let (zc, zs) = (z.count as int, z.span as int);
    assert(xc * ys * zs <= yc * xs * zs) by (nonlinear_arith)
        requires
            xc * ys <= yc * xs,
            zs > 0,
    ;
    assert(zc * ys * xs > yc * zs * xs) by (nonlinear_arith)
        requires
            zc * ys > yc * zs,
            xs > 0,
    ;
    assert(zc * xs * ys > xc * zs * ys) by (nonlinear_arith)
        requires
            xc * ys * zs <= yc * xs * zs,
            zc * ys * xs > yc * zs * xs,
    ;
    assert(zc * xs > xc * zs) by (nonlinear_arith)
        requires
            zc * xs * ys > xc * zs * ys,
            ys > 0,
    ;
}

/// A rate above `y` is also above any rate that `y` does not exceed.
pub proof fn lemma_rate_gt_after_le(x: Rate, y: Rate, z: Rate)
    requires
        !rate_gt(x, y),
        rate_gt(z, y),
    ensures
        rate_gt(z, x),
{
    if y.span == 0 {
        if x.span > 0 {
            assert(x.count == 0);
            assert(x.count * z.span == 0) by (nonlinear_arith)
                requires
                    x.count == 0,
            ;
            assert(z.count * x.span > 0) by (nonlinear_arith)
                requires
                    z.count > 0,
                    x.span > 0,
            ;
        }
    } else if x.span == 0 {
        assert(y.count * z.span >= 0) by (nonlinear_arith);
        assert(z.count > 0) by (nonlinear_arith)
            requires
                z.count * y.span > y.count * z.span,
                y.count * z.span >= 0,
        ;
    } else {
        lemma_rate_gt_after_le_positive(x, y, z);
    }
}

impl Rate {
    /// Whether this rate is strictly higher than `other`, decided exactly; a rate
    /// over an empty span counts as zero.
    pub fn exceeds(&self, other: &Rate) -> (r: bool)
        ensures
            r == rate_gt(*self, *other),
    {
        if self.span == 0 {
            return false;
        }
        if other.span == 0 {
            return self.count > 0;
        }
        let b: u128 = self.span as u128;
        let d: u128 = other.span as u128;
        let qa: u128 = self.count / b;
        let ra: u128 = self.count % b;
        let qc: u128 = other.count / d;
        let rc: u128 = other.count % d;
        proof {
            lemma_cross_compare(self.count as int, b as int, other.count as int, d as int);
        }
        if qa != qc {
            qa > qc
        } else {
            proof {
                assert(ra * d <= u64::MAX * u64::MAX) by (nonlinear_arith)
                    requires
                        ra < b <= u64::MAX,
                        d <= u64::MAX,
                ;
                assert(rc * b <= u64::MAX * u64::MAX) by (nonlinear_arith)
                    requires
                        rc < d <= u64::MAX,
                        b <= u64::MAX,
                ;
            }
            ra * d > rc * b
        }
    }
}

} // verus!
