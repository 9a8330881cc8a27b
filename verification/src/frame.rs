//! Pixel planes and frames.
//!
//! A `Plane` is a 2D buffer of luma samples in row-major order, without
//! padding; a `Frame` bundles the planes of one decoded picture (only the
//! luma plane takes part in scene-cut detection).  The downscaling transform
//! used for fast detection lives here: each output sample is the rounded box
//! average of a `factor x factor` block of input samples.

use vstd::prelude::*;
use vstd::arithmetic::div_mod::{
    lemma_div_nonincreasing, lemma_div_pos_is_pos, lemma_fundamental_div_mod,
    lemma_fundamental_div_mod_converse, lemma_mod_division_less_than_divisor,
    lemma_multiply_divide_lt,
};
use vstd::arithmetic::mul::lemma_mul_inequality;

verus! {

/// A 2D buffer of luma samples, row-major, without padding.
pub struct Plane {
    pub data: Vec<u16>,
    pub width: usize,
    pub height: usize,
}

/// A decoded picture; only the luma plane is used by the detector.
pub struct Frame {
    pub luma: Plane,
}

impl Plane {
    /// The plane owns exactly `width * height` samples.
    pub open spec fn wf(self) -> bool {
        self.data@.len() == self.width * self.height
    }

    /// Sample at row `y`, column `x`.
    pub open spec fn sample(self, y: int, x: int) -> u16 {
        self.data@[y * self.width + x]
    }

    /// Width of this plane downscaled by `factor`.
    pub open spec fn scaled_width(self, factor: int) -> int {
        self.width as int / factor
    }

    /// Height of this plane downscaled by `factor`.
    pub open spec fn scaled_height(self, factor: int) -> int {
        self.height as int / factor
    }
}

/// Sum of the `n` samples of row `y` starting at column `x`.
pub open spec fn row_sum(p: Plane, y: int, x: int, n: int) -> int
    decreases n,
{
    if n <= 0 {
        0
    } else {
        row_sum(p, y, x, n - 1) + p.sample(y, x + n - 1)
    }
}

/// Sum of a block of `rows` rows of `f` samples, top-left corner `(y, x)`.
pub open spec fn box_sum(p: Plane, y: int, x: int, f: int, rows: int) -> int
    decreases rows,
{
    if rows <= 0 {
        0
    } else {
        box_sum(p, y, x, f, rows - 1) + row_sum(p, y + rows - 1, x, f)
    }
}

/// Output sample `(by, bx)` of downscaling `p` by `f`: the box average of
/// the `f x f` block at `(by * f, bx * f)`, rounded to nearest.
pub open spec fn scaled_sample(p: Plane, f: int, by: int, bx: int) -> int {
    (box_sum(p, by * f, bx * f, f, f) + (f * f) / 2) / (f * f)
}

/// The full sample sequence of `p` downscaled by `f`, row-major.
pub open spec fn downscale_seq(p: Plane, f: int) -> Seq<u16> {
    Seq::new(
        (p.scaled_height(f) * p.scaled_width(f)) as nat,
        |i: int| (scaled_sample(p, f, i / p.scaled_width(f), i % p.scaled_width(f)) as u16),
    )
}

/// A row sum of `n` u16 samples lies in `[0, n * 65535]`.
proof fn lemma_row_sum_bounds(p: Plane, y: int, x: int, n: int)
    requires
        n >= 0,
    ensures
        0 <= row_sum(p, y, x, n) <= n * 65535,
    decreases n,
{
    if n > 0 {
        lemma_row_sum_bounds(p, y, x, n - 1);
    }
}

/// A box sum of `rows * f` u16 samples lies in `[0, rows * f * 65535]`.
proof fn lemma_box_sum_bounds(p: Plane, y: int, x: int, f: int, rows: int)
    requires
        f >= 0,
        rows >= 0,
    ensures
        0 <= box_sum(p, y, x, f, rows) <= rows * f * 65535,
    decreases rows,
{
    if rows > 0 {
        lemma_box_sum_bounds(p, y, x, f, rows - 1);
        lemma_row_sum_bounds(p, y + rows - 1, x, f);
        assert((rows - 1) * f * 65535 + f * 65535 == rows * f * 65535) by (nonlinear_arith);
    }
}

/// A rounded box average of u16 samples is again a u16 value.
proof fn lemma_scaled_sample_range(p: Plane, f: int, by: int, bx: int)
    requires
        1 <= f,
    ensures
        0 <= scaled_sample(p, f, by, bx) < 65536,
{
    let s = box_sum(p, by * f, bx * f, f, f);
    let b = f * f;
    lemma_box_sum_bounds(p, by * f, bx * f, f, f);
    assert(b >= 1 && s <= b * 65535) by (nonlinear_arith)
        requires
            b == f * f,
            f >= 1,
            s <= f * f * 65535,
    ;
    lemma_div_pos_is_pos(s + b / 2, b);
    assert(s + b / 2 < b * 65536);
    lemma_multiply_divide_lt(s + b / 2, b, 65536);
}

/// Row-major index arithmetic: encoding a row/column pair below the plane
/// bounds gives an index below `w * h` that decodes back to the same pair.
proof fn lemma_index_encode(y: int, x: int, w: int, h: int)
    requires
        0 <= y < h,
        0 <= x < w,
    ensures
        0 <= y * w + x < h * w,
        (y * w + x) / w == y,
        (y * w + x) % w == x,
{
    lemma_mul_inequality(y + 1, h, w);
    assert(y * w + x < h * w) by (nonlinear_arith)
        requires (y + 1) * w <= h * w && x < w;
    assert(y * w + x >= 0) by (nonlinear_arith)
        requires y >= 0 && w > 0 && x >= 0;
    lemma_fundamental_div_mod_converse(y * w + x, w, y, x);
}

/// Row-major index arithmetic: decoding an index below `w * h` gives a
/// row/column pair below the plane bounds.
proof fn lemma_index_decode(i: int, w: int, h: int)
    requires
        0 <= i < h * w,
        0 < w,
    ensures
        0 <= i / w < h,
        0 <= i % w < w,
        i == (i / w) * w + i % w,
{
    lemma_mod_division_less_than_divisor(i, w);
    lemma_div_pos_is_pos(i, w);
    assert(h * w == w * h) by (nonlinear_arith);
    lemma_multiply_divide_lt(i, w, h);
    lemma_fundamental_div_mod(i, w);
}

impl Plane {
    /// Overwrites `dst` (whose dimensions must be this plane's divided by
    /// `factor`) with this plane downscaled by `factor`, reusing `dst`'s
    /// allocation.
    #[verifier::loop_isolation(false)]
    pub fn downscale_in_place(&self, factor: usize, dst: &mut Plane)
        requires
            self.wf(),
            1 <= factor <= 32,
            old(dst).wf(),
            old(dst).width == self.scaled_width(factor as int),
            old(dst).height == self.scaled_height(factor as int),
        ensures
            final(dst).width == old(dst).width,
            final(dst).height == old(dst).height,
            final(dst).wf(),
            final(dst).data@ == downscale_seq(*self, factor as int),
    {
        let w = self.width;
        let dw = dst.width;
        let dh = dst.height;
        proof {
            assert(1 <= factor * factor <= 1024) by (nonlinear_arith)
                requires 1 <= factor <= 32,
            ;
            assert(dh * factor <= self.height && dw * factor <= w) by {
                lemma_fundamental_div_mod(self.height as int, factor as int);
                lemma_fundamental_div_mod(w as int, factor as int);
                lemma_mod_division_less_than_divisor(self.height as int, factor as int);
                lemma_mod_division_less_than_divisor(w as int, factor as int);
            }
            assert(w * self.height == self.height * w) by (nonlinear_arith);
            assert(dw * dh == dh * dw) by (nonlinear_arith);
            assert(dst.data.len() == dst.data@.len());
            assert(dw * dh <= usize::MAX);
            assert(self.data.len() == self.data@.len());
            assert(self.height * w <= usize::MAX);
        }
        let box_pixels: usize = factor * factor;
        let half_box_pixels: usize = box_pixels / 2;
        for y in 0..dh
            invariant
                dst.width == dw,
                dst.height == dh,
                dst.data@.len() == dw * dh,
                forall|yy: int, xx: int|
                    0 <= yy < y && 0 <= xx < dw ==> dst.data@[yy * dw + xx] == (scaled_sample(
                        *self,
                        factor as int,
                        yy,
                        xx,
                    ) as u16),
        {
            for x in 0..dw
                invariant
                    dst.width == dw,
                    dst.height == dh,
                    dst.data@.len() == dw * dh,
                    forall|yy: int, xx: int|
                        (0 <= yy < y && 0 <= xx < dw) || (yy == y && 0 <= xx < x)
                            ==> dst.data@[yy * dw + xx] == (scaled_sample(
                            *self,
                            factor as int,
                            yy,
                            xx,
                        ) as u16),
            {
                proof {
                    assert(y * factor + factor <= dh * factor && x * factor + factor <= dw * factor)
                        by (nonlinear_arith)
                        requires y < dh && x < dw && factor >= 1,
                    ;
                }
                let y_top: usize = y * factor;
                let x_left: usize = x * factor;
                let mut sum: u64 = half_box_pixels as u64;
                for dy in 0..factor
                    invariant
                        sum == half_box_pixels + box_sum(
                            *self,
                            y_top as int,
                            x_left as int,
                            factor as int,
                            dy as int,
                        ),
                {
                    let row: usize = y_top + dy;
                    for dx in 0..factor
                        invariant
                            row == y_top + dy,
                            sum == half_box_pixels + box_sum(
                                *self,
                                y_top as int,
                                x_left as int,
                                factor as int,
                                dy as int,
                            ) + row_sum(*self, row as int, x_left as int, dx as int),
                    {
                        let col: usize = x_left + dx;
                        proof {
                            lemma_index_encode(row as int, col as int, w as int, self.height as int);
                            lemma_row_sum_bounds(*self, row as int, x_left as int, dx as int);
                            lemma_box_sum_bounds(
                                *self,
                                y_top as int,
                                x_left as int,
                                factor as int,
                                dy as int,
                            );
                            assert(box_sum(
                                *self,
                                y_top as int,
                                x_left as int,
                                factor as int,
                                dy as int,
                            ) <= 1024 * 65535) by (nonlinear_arith)
                                requires
                                    box_sum(
                                        *self,
                                        y_top as int,
                                        x_left as int,
                                        factor as int,
                                        dy as int,
                                    ) <= dy * factor * 65535,
                                    0 <= dy <= 32,
                                    0 <= factor <= 32,
                            ;
                        }
                        let idx: usize = row * w + col;
                        sum = sum + self.data[idx] as u64;
                    }
                }
                let avg: u64 = sum / box_pixels as u64;
                proof {
                    lemma_scaled_sample_range(*self, factor as int, y as int, x as int);
                    lemma_index_encode(y as int, x as int, dw as int, dh as int);
                }
                let didx: usize = y * dw + x;
                dst.data.set(didx, avg as u16);
                proof {
                    assert forall|yy: int, xx: int|
                        (0 <= yy < y && 0 <= xx < dw) || (yy == y && 0 <= xx < x + 1)
                            implies dst.data@[yy * dw + xx] == (scaled_sample(
                        *self,
                        factor as int,
                        yy,
                        xx,
                    ) as u16) by {
                        lemma_index_encode(yy, xx, dw as int, dh as int);
                    }
                }
            }
        }
        proof {
            assert forall|i: int| 0 <= i < dh * dw implies dst.data@[i] == (scaled_sample(
                *self,
                factor as int,
                i / (dw as int),
                i % (dw as int),
            ) as u16) by {
                assert(dw > 0) by (nonlinear_arith)
                    requires 0 <= i < dh * dw,
                ;
                lemma_index_decode(i, dw as int, dh as int);
            }
            assert(dst.data@ =~= downscale_seq(*self, factor as int));
        }
    }

    /// Returns this plane downscaled by `factor` as a freshly allocated plane.
    pub fn downscale(&self, factor: usize) -> (r: Plane)
        requires
            self.wf(),
            1 <= factor <= 32,
        ensures
            r.width == self.scaled_width(factor as int),
            r.height == self.scaled_height(factor as int),
            r.wf(),
            r.data@ == downscale_seq(*self, factor as int),
    {
        let dw = self.width / factor;
        let dh = self.height / factor;
        proof {
            lemma_div_pos_is_pos(self.width as int, factor as int);
            lemma_div_pos_is_pos(self.height as int, factor as int);
            lemma_div_nonincreasing(self.width as int, factor as int);
            lemma_div_nonincreasing(self.height as int, factor as int);
            assert(self.data.len() == self.data@.len());
            assert(dw * dh <= self.width * self.height) by (nonlinear_arith)
                requires
                    0 <= dw <= self.width,
                    0 <= dh <= self.height,
            ;
        }
        let data: Vec<u16> = vec![0u16; dw * dh];
        let mut r = Plane { data, width: dw, height: dh };
        self.downscale_in_place(factor, &mut r);
        r
    }
}

} // verus!
