//! The size of a scaled picture. The height is computed in single precision: the ratio of the
//! widths is rounded to 24 bits, then the product of height and ratio, and the fraction of that
//! product is dropped. Both roundings go to the nearest value, ties to the even one.

use vstd::arithmetic::power2::{
    lemma2_to64, lemma2_to64_rest, lemma_pow2_pos, lemma_pow2_strictly_increases, lemma_pow2_unfold,
    pow2,
};
use vstd::prelude::*;

verus! {

/// The integer nearest to `n / d`, the even one where two are equally near.
pub open spec fn nearest(n: nat, d: nat) -> nat {
    let q = n / d;
    let r = n % d;
    if 2 * r < d {
        q
    } else if 2 * r > d {
        q + 1
    } else {
        q + q % 2
    }
}

/// `n / d` scaled by `2^e` has exactly 24 binary digits before the point.
pub open spec fn in_binade(n: nat, d: nat, e: nat) -> bool {
    pow2(23) * d <= n * pow2(e) < pow2(24) * d
}

/// `n / d` in single precision, as a significand and a power of two that divides it. It speaks
/// of quotients under `2^24`, the only ones that come up here.
pub open spec fn single(n: nat, d: nat) -> (nat, nat) {
    if n == 0 {
        (0, 1)
    } else {
        let e = choose|e: nat| in_binade(n, d, e);
        (nearest(n * pow2(e), d), pow2(e))
    }
}

/// The height of a picture of `height` rows whose width goes from `width` down to `max_width`.
pub open spec fn scaled_height(width: nat, height: nat, max_width: nat) -> nat {
    let ratio = single(max_width, width);
    let product = single(height * ratio.0, ratio.1);
    product.0 / product.1
}

/// The size a picture is brought to: its own where it is narrow enough, else `max_width` and the
/// height in proportion.
pub open spec fn fitted(width: nat, height: nat, max_width: nat) -> (nat, nat) {
    if width <= max_width {
        (width, height)
    } else {
        (max_width, scaled_height(width, height, max_width))
    }
}

/// Only one scale brings a quotient into the binade.
proof fn lemma_binade_unique(n: nat, d: nat, e: nat, f: nat)
    requires
        in_binade(n, d, e),
        in_binade(n, d, f),
    ensures
        e == f,
{
    lemma_pow2_unfold(24);
    if e < f {
        lemma_scale_apart(n, d, e, f);
    } else if f < e {
        lemma_scale_apart(n, d, f, e);
    }
}

proof fn lemma_scale_apart(n: nat, d: nat, e: nat, f: nat)
    requires
        e < f,
        pow2(23) * d <= n * pow2(e),
    ensures
        pow2(24) * d <= n * pow2(f),
{
    lemma_pow2_unfold(24);
    lemma_pow2_unfold(e + 1);
    if e + 1 < f {
        lemma_pow2_strictly_increases(e + 1, f);
    }
    let a = pow2(23);
    let p = pow2(e);
    let q = pow2(f);
    assert(2 * p <= q);
    assert(2 * (n * p) <= n * q) by (nonlinear_arith)
        requires
            2 * p <= q,
    ;
    assert((2 * a) * d == 2 * (a * d)) by (nonlinear_arith);
}

/// Rounding does not pass an integer that bounds the quotient from above.
proof fn lemma_nearest_le(n: nat, d: nat, bound: nat)
    requires
        d > 0,
        n <= bound * d,
    ensures
        nearest(n, d) <= bound,
{
    let q = n / d;
    let r = n % d;
    assert(n == d * q + r && 0 <= r < d) by (nonlinear_arith)
        requires
            d > 0,
            q == n / d,
            r == n % d,
    ;
    assert(q <= bound) by (nonlinear_arith)
        requires
            n == d * q + r,
            0 <= r,
            n <= bound * d,
            d > 0,
    ;
    if q == bound {
        assert(r == 0) by (nonlinear_arith)
            requires
                n == d * q + r,
                n <= bound * d,
                q == bound,
                0 <= r,
        ;
    }
}

/// Rounding does not pass an integer that bounds the quotient from below.
proof fn lemma_nearest_ge(n: nat, d: nat, bound: nat)
    requires
        d > 0,
        bound * d <= n,
    ensures
        bound <= nearest(n, d),
{
    let q = n / d;
    let r = n % d;
    assert(bound <= q) by (nonlinear_arith)
        requires
            d > 0,
            q == n / d,
            bound * d <= n,
    ;
}

/// Rounding moves a quotient by at most one half.
proof fn lemma_nearest_close(n: nat, d: nat)
    requires
        d > 0,
    ensures
        2 * (nearest(n, d) * d) <= 2 * n + d,
        2 * n <= 2 * (nearest(n, d) * d) + d,
{
    let q = n / d;
    let r = n % d;
    assert(n == d * q + r && 0 <= r < d) by (nonlinear_arith)
        requires
            d > 0,
            q == n / d,
            r == n % d,
    ;
    assert((q + 1) * d == d * q + d && q * d == d * q) by (nonlinear_arith);
}

/// Single precision division of `n` by `d`: the significand, and the power of two that divides it.
fn divide(n: u64, d: u64) -> (r: (u64, u64))
    requires
        0 < n,
        0 < d <= 0x80_0000_0000,
        n < 0x100_0000 * d,
    ensures
        (r.0 as nat, r.1 as nat) == single(n as nat, d as nat),
        exists|e: nat| in_binade(n as nat, d as nat, e) && r.1 == pow2(e),
        r.0 == nearest((n * r.1) as nat, d as nat),
        0 < r.1,
        n * r.1 < 0x100_0000 * d,
        0x80_0000 * d <= n * r.1,
{
    proof {
        lemma2_to64();
    }
    let low: u64 = 0x80_0000 * d;
    let mut x: u64 = n;
    let mut p: u64 = 1;
    let ghost mut e: nat = 0;
    while x < low
        invariant
            0 < n,
            0 < d <= 0x80_0000_0000,
            low == 0x80_0000 * d,
            0 < x < 0x100_0000 * d,
            x == n * p,
            p == pow2(e),
            0 < p <= x,
        decreases 2 * low - x,
    {
        proof {
            lemma_pow2_unfold(e + 1);
            assert(n * (2 * p) == 2 * (n * p)) by (nonlinear_arith);
            e = e + 1;
        }
        x = x * 2;
        p = p * 2;
    }
    let q: u64 = x / d;
    let r: u64 = x % d;
    let m: u64 = if 2 * r < d {
        q
    } else if 2 * r > d {
        q + 1
    } else {
        q + q % 2
    };
    proof {
        assert(in_binade(n as nat, d as nat, e));
        let f = choose|f: nat| in_binade(n as nat, d as nat, f);
        lemma_binade_unique(n as nat, d as nat, e, f);
        assert(m == nearest(x as nat, d as nat));
    }
    (m, p)
}

/// The scaled height is no larger than the height.
proof fn lemma_steps_shrink(
    width: nat,
    height: nat,
    max_width: nat,
    m1: nat,
    p1: nat,
    m2: nat,
    p2: nat,
)
    requires
        max_width < width,
        p1 > 0,
        p2 > 0,
        m1 == nearest(max_width * p1, width),
        m2 == nearest(height * m1 * p2, p1),
    ensures
        m1 <= p1,
        m2 <= height * p2,
        m2 / p2 <= height,
{
    assert(max_width * p1 <= p1 * width) by (nonlinear_arith)
        requires
            max_width < width,
    ;
    lemma_nearest_le(max_width * p1, width, p1);
    assert(height * m1 * p2 <= (height * p2) * p1) by (nonlinear_arith)
        requires
            m1 <= p1,
    ;
    lemma_nearest_le(height * m1 * p2, p1, height * p2);
    assert(m2 / p2 <= height) by (nonlinear_arith)
        requires
            m2 <= height * p2,
            p2 > 0,
    ;
}

/// The height of a picture whose width goes down to `max_width`.
pub fn scale_height(width: u32, height: u32, max_width: u32) -> (r: u32)
    requires
        max_width < width <= 65535,
        height <= 65535,
    ensures
        r == scaled_height(width as nat, height as nat, max_width as nat),
        r <= height,
{
    if max_width == 0 || height == 0 {
        assert(single(0, width as nat) == (0nat, 1nat));
        assert(height * 0 == 0);
        proof {
            if max_width > 0 {
                let ratio = single(max_width as nat, width as nat);
                assert(0 * ratio.0 == 0) by (nonlinear_arith);
            }
        }
        return 0;
    }
    let (m1, p1) = divide(max_width as u64, width as u64);
    proof {
        lemma2_to64();
        lemma2_to64_rest();
        assert(max_width * p1 <= p1 * width) by (nonlinear_arith)
            requires
                max_width < width,
        ;
        lemma_nearest_le((max_width * p1) as nat, width as nat, p1 as nat);
        lemma_nearest_ge((max_width * p1) as nat, width as nat, 0x80_0000);
        assert(m1 <= p1);
        assert(p1 <= max_width * p1) by (nonlinear_arith)
            requires
                max_width >= 1,
        ;
        let e = choose|e: nat|
            in_binade(max_width as nat, width as nat, e) && p1 == pow2(e);
        if e > 39 {
            lemma_pow2_strictly_increases(39, e);
            lemma_pow2_unfold(40);
            if e > 40 {
                lemma_pow2_strictly_increases(40, e);
            }
        } else if e < 39 {
            lemma_pow2_strictly_increases(e, 39);
        }
        assert(p1 <= 0x80_0000_0000);
        lemma_nearest_le((max_width * p1) as nat, width as nat, 0x100_0000);
        assert(0 < height * m1 <= 65535 * m1) by (nonlinear_arith)
            requires
                0 < height <= 65535,
                m1 > 0,
        ;
    }
    let n: u64 = height as u64 * m1;
    let (m2, p2) = divide(n, p1);
    proof {
        lemma_steps_shrink(
            width as nat,
            height as nat,
            max_width as nat,
            m1 as nat,
            p1 as nat,
            m2 as nat,
            p2 as nat,
        );
    }
    (m2 / p2) as u32
}

/// The size a picture is brought to.
pub fn fit(width: u32, height: u32, max_width: u32) -> (r: (u32, u32))
    requires
        width <= 65535,
        height <= 65535,
    ensures
        (r.0 as nat, r.1 as nat) == fitted(width as nat, height as nat, max_width as nat),
        r.0 <= width,
        r.1 <= height,
        r.0 <= max_width,
{
    if width <= max_width {
        (width, height)
    } else {
        (max_width, scale_height(width, height, max_width))
    }
}

/// Every quotient under `2^24` can be brought into the binade.
proof fn lemma_binade_exists(n: nat, d: nat, e: nat)
    requires
        0 < n,
        0 < d,
        n * pow2(e) < pow2(24) * d,
    ensures
        exists|f: nat| in_binade(n, d, f),
    decreases pow2(24) * d - n * pow2(e),
{
    lemma_pow2_unfold(24);
    let p = pow2(e);
    assert((2 * pow2(23)) * d == 2 * (pow2(23) * d)) by (nonlinear_arith);
    if pow2(23) * d <= n * p {
        assert(in_binade(n, d, e));
    } else {
        lemma_pow2_unfold(e + 1);
        lemma_pow2_pos(e);
        assert(n * (2 * p) == 2 * (n * p)) by (nonlinear_arith);
        assert(n * p > 0) by (nonlinear_arith)
            requires
                n > 0,
                p > 0,
        ;
        lemma_binade_exists(n, d, e + 1);
    }
}

/// What single precision makes of a quotient.
proof fn lemma_single(n: nat, d: nat)
    requires
        0 < n,
        0 < d,
        n < 0x100_0000 * d,
    ensures
        single(n, d).1 > 0,
        single(n, d).0 == nearest(n * single(n, d).1, d),
        0x80_0000 <= single(n, d).0,
{
    lemma2_to64();
    assert(n * 1 == n);
    lemma_binade_exists(n, d, 0);
    let e = choose|e: nat| in_binade(n, d, e);
    lemma_pow2_pos(e);
    lemma_nearest_ge(n * pow2(e), d, 0x80_0000);
}

/// Fitting never enlarges a picture, and never leaves it wider than asked for.
pub proof fn law_fitting_never_enlarges(width: nat, height: nat, max_width: nat)
    requires
        width <= 65535,
        height <= 65535,
    ensures
        fitted(width, height, max_width).0 <= width,
        fitted(width, height, max_width).1 <= height,
        fitted(width, height, max_width).0 <= max_width,
        width <= max_width ==> fitted(width, height, max_width) == (width, height),
{
    if width > max_width {
        if max_width == 0 || height == 0 {
            assert(single(0, width) == (0nat, 1nat));
            let ratio = single(max_width, width);
            assert(height * ratio.0 == 0) by (nonlinear_arith)
                requires
                    ratio.0 == 0 || height == 0,
            ;
        } else {
            let (m1, p1) = single(max_width, width);
            let (m2, p2) = single(height * m1, p1);
            lemma_single(max_width, width);
            assert(max_width * p1 <= p1 * width) by (nonlinear_arith)
                requires
                    max_width < width,
            ;
            lemma_nearest_le(max_width * p1, width, p1);
            assert(0 < height * m1 < 0x100_0000 * p1) by (nonlinear_arith)
                requires
                    0 < height <= 65535,
                    0 < m1 <= p1,
            ;
            lemma_single(height * m1, p1);
            lemma_steps_shrink(width, height, max_width, m1, p1, m2, p2);
        }
    }
}

/// Two roundings of relative error `2^-24` move the height by less than one part in 128.
proof fn lemma_errors_small(w: int, h: int, p1: int, p2: int, gap: int)
    requires
        0 < w,
        0 < h <= 65535,
        0x80_0000 <= p1,
        128 <= p2,
        2 * (p1 * p2) * gap <= w * (h * p2 + p1),
    ensures
        128 * gap <= w,
{
    let pp = p1 * p2;
    assert(pp > 0 && 256 * (h * p2) <= 2 * pp && 256 * p1 <= 2 * pp) by (nonlinear_arith)
        requires
            pp == p1 * p2,
            0 < h <= 65535,
            0x80_0000 <= p1,
            128 <= p2,
    ;
    let s = h * p2 + p1;
    assert(128 * s <= 2 * pp);
    assert(128 * gap <= w) by (nonlinear_arith)
        requires
            pp > 0,
            0 < w,
            128 * s <= 2 * pp,
            2 * pp * gap <= w * s,
    ;
}

/// Scaling keeps the proportions: the scaled height differs from `height * max_width / width` by
/// less than one row, up to a rounding error of one row in 128.
pub proof fn law_scaling_keeps_proportions(width: nat, height: nat, max_width: nat)
    requires
        max_width < width <= 65535,
        height <= 65535,
    ensures
        128 * (width * scaled_height(width, height, max_width)) <= 128 * (height * max_width) + width,
        128 * (height * max_width) < 128 * (width * (scaled_height(width, height, max_width) + 1))
            + width,
{
    let r = scaled_height(width, height, max_width);
    if max_width == 0 || height == 0 {
        assert(single(0, width) == (0nat, 1nat));
        assert(height * max_width == 0) by (nonlinear_arith)
            requires
                max_width == 0 || height == 0,
        ;
        let ratio = single(max_width, width);
        assert(height * ratio.0 == 0) by (nonlinear_arith)
            requires
                ratio.0 == 0 || height == 0,
        ;
        assert(r == 0);
        assert(width * 0 == 0 && width * 1 == width);
    } else {
        let (m1, p1) = single(max_width, width);
        let (m2, p2) = single(height * m1, p1);
        lemma_single(max_width, width);
        assert(max_width * p1 <= p1 * width) by (nonlinear_arith)
            requires
                max_width < width,
        ;
        lemma_nearest_le(max_width * p1, width, p1);
        assert(0 < height * m1 < 0x100_0000 * p1) by (nonlinear_arith)
            requires
                0 < height <= 65535,
                0 < m1 <= p1,
        ;
        lemma_single(height * m1, p1);
        lemma_steps_shrink(width, height, max_width, m1, p1, m2, p2);
        assert(p2 >= 128) by (nonlinear_arith)
            requires
                0x80_0000 <= m2,
                m2 <= height * p2,
                height <= 65535,
        ;
        lemma_nearest_close(max_width * p1, width);
        lemma_nearest_close(height * m1 * p2, p1);
        assert(r * p2 <= m2 < (r + 1) * p2) by (nonlinear_arith)
            requires
                p2 > 0,
                r == m2 / p2,
        ;
        let (w, h, x, a, p, b, q, k) = (
            width as int,
            height as int,
            max_width as int,
            m1 as int,
            p1 as int,
            m2 as int,
            p2 as int,
            r as int,
        );
        lemma_one_denominator(w, h, x, a, p, b, q, k);
        lemma_errors_small(w, h, p, q, w * k - h * x);
        lemma_errors_small_strict(w, h, p, q, h * x - w * (k + 1));
    }
}

/// The two roundings and the dropped fraction, over one denominator.
proof fn lemma_one_denominator(w: int, h: int, x: int, a: int, p: int, b: int, q: int, k: int)
    requires
        w > 0,
        h > 0,
        p > 0,
        q > 0,
        2 * (a * w) <= 2 * (x * p) + w,
        2 * (x * p) <= 2 * (a * w) + w,
        2 * (b * p) <= 2 * (h * a * q) + p,
        2 * (h * a * q) <= 2 * (b * p) + p,
        k * q <= b < (k + 1) * q,
    ensures
        2 * (p * q) * (w * k - h * x) <= w * (h * q + p),
        2 * (p * q) * (h * x - w * (k + 1)) < w * (h * q + p),
{
    // the first rounding
    let hq = h * q;
    let aw = a * w;
    let xp = x * p;
    assert(hq > 0) by (nonlinear_arith)
        requires
            hq == h * q,
            h > 0,
            q > 0,
    ;
    assert((2 * aw) * hq <= (2 * xp + w) * hq && (2 * xp) * hq <= (2 * aw + w) * hq)
        by (nonlinear_arith)
        requires
            2 * aw <= 2 * xp + w,
            2 * xp <= 2 * aw + w,
            hq > 0,
    ;
    assert((2 * aw) * hq == 2 * (aw * hq) && (2 * xp + w) * hq == 2 * (xp * hq) + w * hq && (2 * xp)
        * hq == 2 * (xp * hq) && (2 * aw + w) * hq == 2 * (aw * hq) + w * hq) by (nonlinear_arith);
    // the second rounding
    let bp = b * p;
    let haq = h * a * q;
    assert((2 * bp) * w <= (2 * haq + p) * w && (2 * haq) * w <= (2 * bp + p) * w)
        by (nonlinear_arith)
        requires
            2 * bp <= 2 * haq + p,
            2 * haq <= 2 * bp + p,
            w > 0,
    ;
    assert((2 * bp) * w == 2 * (bp * w) && (2 * haq + p) * w == 2 * (haq * w) + p * w && (2 * haq)
        * w == 2 * (haq * w) && (2 * bp + p) * w == 2 * (bp * w) + p * w) by (nonlinear_arith);
    assert(haq * w == aw * hq) by (nonlinear_arith)
        requires
            haq == h * a * q,
            aw == a * w,
            hq == h * q,
    ;
    // the dropped fraction
    let pw = p * w;
    assert(pw > 0) by (nonlinear_arith)
        requires
            pw == p * w,
            p > 0,
            w > 0,
    ;
    let kq = k * q;
    let kq1 = (k + 1) * q;
    assert(kq * pw <= b * pw && b * pw < kq1 * pw) by (nonlinear_arith)
        requires
            kq <= b < kq1,
            pw > 0,
    ;
    assert(b * pw == bp * w) by (nonlinear_arith)
        requires
            pw == p * w,
            bp == b * p,
    ;
    // the same products, in the order of the claim
    let pq = p * q;
    let hx = h * x;
    let wk = w * k;
    let wk1 = w * (k + 1);
    assert(kq * pw == pq * wk) by (nonlinear_arith)
        requires
            kq == k * q,
            pw == p * w,
            pq == p * q,
            wk == w * k,
    ;
    assert(kq1 * pw == pq * wk1) by (nonlinear_arith)
        requires
            kq1 == (k + 1) * q,
            pw == p * w,
            pq == p * q,
            wk1 == w * (k + 1),
    ;
    assert(xp * hq == pq * hx) by (nonlinear_arith)
        requires
            xp == x * p,
            hq == h * q,
            pq == p * q,
            hx == h * x,
    ;
    assert(2 * pq * (wk - hx) == 2 * (pq * wk) - 2 * (pq * hx) && 2 * pq * (hx - wk1) == 2 * (pq * hx)
        - 2 * (pq * wk1)) by (nonlinear_arith);
    assert(w * (hq + p) == w * hq + p * w) by (nonlinear_arith);
}

/// As [`lemma_errors_small`], where the bound is strict.
proof fn lemma_errors_small_strict(w: int, h: int, p1: int, p2: int, gap: int)
    requires
        0 < w,
        0 < h <= 65535,
        0x80_0000 <= p1,
        128 <= p2,
        2 * (p1 * p2) * gap < w * (h * p2 + p1),
    ensures
        128 * gap < w,
{
    let pp = p1 * p2;
    assert(pp > 0 && 256 * (h * p2) <= 2 * pp && 256 * p1 <= 2 * pp) by (nonlinear_arith)
        requires
            pp == p1 * p2,
            0 < h <= 65535,
            0x80_0000 <= p1,
            128 <= p2,
    ;
    let s = h * p2 + p1;
    assert(128 * s <= 2 * pp);
    assert(128 * gap < w) by (nonlinear_arith)
        requires
            pp > 0,
            0 < w,
            128 * s <= 2 * pp,
            2 * pp * gap < w * s,
    ;
}

} // verus!
