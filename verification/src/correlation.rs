//! How well a template matches a patch of the screen.
//!
//! A placement of the template on the screen is scored by the squared
//! normalised cross-correlation of the two patches, counted in parts per
//! 10^12 and rounded down, so that all arithmetic is on integers.

use crate::picture::{lemma_index_in_range, Bitmap, GrayscaleBuffer, MAX_PIXELS};
use vstd::prelude::*;

verus! {

/// One unit of the score and of the square of a threshold: a score of
/// `SCORE_ONE` is a perfect match.
pub const SCORE_ONE: u128 = 1_000_000_000_000;

/// The largest product of two pixel values.
pub const PIXEL_SQ_MAX: u64 = 65_025;

/// The three sums from which a placement is scored.
pub struct Sums {
    /// Sum of the products of a template pixel and the screen pixel under it.
    pub cross: int,
    /// Sum of the squares of the template pixels.
    pub template_sq: int,
    /// Sum of the squares of the screen pixels.
    pub screen_sq: int,
}

impl Sums {
    pub open spec fn zero() -> Sums {
        Sums { cross: 0, template_sq: 0, screen_sq: 0 }
    }

    pub open spec fn plus(self, other: Sums) -> Sums {
        Sums {
            cross: self.cross + other.cross,
            template_sq: self.template_sq + other.template_sq,
            screen_sq: self.screen_sq + other.screen_sq,
        }
    }

    /// All three sums lie between zero and `n` times the largest product of
    /// two pixels.
    pub open spec fn within(self, n: int) -> bool {
        &&& 0 <= self.cross <= PIXEL_SQ_MAX * n
        &&& 0 <= self.template_sq <= PIXEL_SQ_MAX * n
        &&& 0 <= self.screen_sq <= PIXEL_SQ_MAX * n
    }
}

/// What the template pixel at `(tx, ty)` adds to the sums when the template
/// lies on the screen `s` with its top-left corner at `(x, y)`.
pub open spec fn pixel_term(s: Bitmap, t: Bitmap, x: int, y: int, tx: int, ty: int) -> Sums {
    let a = t.at(tx, ty);
    let b = s.at(x + tx, y + ty);
    Sums { cross: a * b, template_sq: a * a, screen_sq: b * b }
}

/// The sums over row `ty` of the template, from column `tx` on, taking every
/// `stride`-th pixel.
pub open spec fn row_sums(s: Bitmap, t: Bitmap, x: int, y: int, stride: int, ty: int, tx: int) -> Sums
    decreases
        if tx < t.width {
            t.width - tx
        } else {
            0
        },
{
    if tx >= t.width || stride < 1 {
        Sums::zero()
    } else {
        pixel_term(s, t, x, y, tx, ty).plus(row_sums(s, t, x, y, stride, ty, tx + stride))
    }
}

/// The sums over the template from row `ty` on, taking every `stride`-th row
/// and every `stride`-th pixel of a row.
pub open spec fn grid_sums(s: Bitmap, t: Bitmap, x: int, y: int, stride: int, ty: int) -> Sums
    decreases
        if ty < t.height {
            t.height - ty
        } else {
            0
        },
{
    if ty >= t.height || stride < 1 {
        Sums::zero()
    } else {
        row_sums(s, t, x, y, stride, ty, 0).plus(grid_sums(s, t, x, y, stride, ty + stride))
    }
}

/// The score that belongs to the sums: the square of
/// `cross / sqrt(template_sq * screen_sq)` in parts per 10^12, rounded down,
/// and zero where the denominator is zero.
pub open spec fn score_of(sums: Sums) -> int {
    let d = sums.template_sq * sums.screen_sq;
    if d <= 0 {
        0
    } else {
        sums.cross * sums.cross * SCORE_ONE / d
    }
}

/// The score of the template `t` placed on the screen `s` with its top-left
/// corner at `(x, y)`, computed from every `stride`-th pixel.
pub open spec fn score_at(s: Bitmap, t: Bitmap, x: int, y: int, stride: int) -> int {
    score_of(grid_sums(s, t, x, y, stride, 0))
}

/// What one pixel adds to the sums is at most the largest product of two
/// pixels.
proof fn lemma_term_bounds(s: Bitmap, t: Bitmap, x: int, y: int, tx: int, ty: int)
    ensures
        pixel_term(s, t, x, y, tx, ty).within(1),
{
    let a = t.at(tx, ty);
    let b = s.at(x + tx, y + ty);
    assert(0 <= a * b <= 65_025 && 0 <= a * a <= 65_025 && 0 <= b * b <= 65_025)
        by (nonlinear_arith)
        requires
            0 <= a <= 255,
            0 <= b <= 255,
    ;
}

/// Correlates the template with the patch of the screen whose top-left
/// corner is `(x, y)`, looking at every `stride`-th pixel in both directions.
pub fn correlation(
    screen: &GrayscaleBuffer,
    template: &GrayscaleBuffer,
    x: u32,
    y: u32,
    stride: u32,
) -> (score: u128)
    requires
        stride >= 1,
        screen@.fits(template@, x as int, y as int),
    ensures
        score == score_at(screen@, template@, x as int, y as int, stride as int),
{
    let screen_width = screen.width();
    let screen_height = screen.height();
    let w: u64 = template.width() as u64;
    let h: u64 = template.height() as u64;
    let step: u64 = stride as u64;
    let ghost s = screen@;
    let ghost t = template@;
    let mut cross: u64 = 0;
    let mut template_sq: u64 = 0;
    let mut screen_sq: u64 = 0;
    let mut ty: u64 = 0;
    while ty < h
        invariant
            screen_width == s.width,
            screen_height == s.height,
            step == stride,
            step >= 1,
            w == t.width,
            h == t.height,
            w <= u32::MAX,
            h <= u32::MAX,
            s == screen@,
            t == template@,
            s.wf(),
            t.wf(),
            s.fits(t, x as int, y as int),
            ty <= h + step,
            (Sums {
                cross: cross as int,
                template_sq: template_sq as int,
                screen_sq: screen_sq as int,
            }).plus(grid_sums(s, t, x as int, y as int, step as int, ty as int)) == grid_sums(
                s,
                t,
                x as int,
                y as int,
                step as int,
                0,
            ),
            (Sums {
                cross: cross as int,
                template_sq: template_sq as int,
                screen_sq: screen_sq as int,
            }).within(if ty < h { ty * w } else { h * w }),
        decreases h + step - ty,
    {
        let ghost row_start = Sums {
            cross: cross as int,
            template_sq: template_sq as int,
            screen_sq: screen_sq as int,
        };
        let mut tx: u64 = 0;
        while tx < w
            invariant
                screen_width == s.width,
                screen_height == s.height,
                step >= 1,
                step <= u32::MAX,
                w == t.width,
                h == t.height,
                w <= u32::MAX,
                h <= u32::MAX,
                s == screen@,
                t == template@,
                s.wf(),
                t.wf(),
                s.fits(t, x as int, y as int),
                ty < h,
                tx <= w + step,
                (Sums {
                    cross: cross as int,
                    template_sq: template_sq as int,
                    screen_sq: screen_sq as int,
                }).plus(row_sums(s, t, x as int, y as int, step as int, ty as int, tx as int))
                    == row_start.plus(
                    row_sums(s, t, x as int, y as int, step as int, ty as int, 0),
                ),
                (Sums {
                    cross: cross as int,
                    template_sq: template_sq as int,
                    screen_sq: screen_sq as int,
                }).within(ty * w + (if tx < w { tx } else { w })),
            decreases w + step - tx,
        {
            proof {
                lemma_term_bounds(s, t, x as int, y as int, tx as int, ty as int);
                lemma_index_in_range(w as int, h as int, tx as int, ty as int);
            }
            let a: u64 = template.get_pixel(tx as u32, ty as u32) as u64;
            let b: u64 = screen.get_pixel(x + tx as u32, y + ty as u32) as u64;
            assert(a * b == pixel_term(s, t, x as int, y as int, tx as int, ty as int).cross);
            cross = cross + a * b;
            template_sq = template_sq + a * a;
            screen_sq = screen_sq + b * b;
            tx = tx + step;
        }
        proof {
            assert(ty * w + w <= (if ty + step < h { (ty + step) * w } else { h * w }))
                by (nonlinear_arith)
                requires
                    ty < h,
                    step >= 1,
                    w >= 0,
            ;
        }
        ty = ty + step;
    }
    proof {
        let limit = PIXEL_SQ_MAX * MAX_PIXELS;
        assert(template_sq * screen_sq <= limit * limit && cross * cross <= limit * limit)
            by (nonlinear_arith)
            requires
                0 <= template_sq <= limit,
                0 <= screen_sq <= limit,
                0 <= cross <= limit,
        ;
    }
    let denominator: u128 = (template_sq as u128) * (screen_sq as u128);
    if denominator == 0 {
        0
    } else {
        let squared: u128 = (cross as u128) * (cross as u128);
        squared * SCORE_ONE / denominator
    }
}

/// The screen `s` shows the template `t` with its top-left corner at
/// `(x, y)`, pixel for pixel.
pub open spec fn shows(s: Bitmap, t: Bitmap, x: int, y: int) -> bool {
    forall|tx: int, ty: int|
        0 <= tx < t.width && 0 <= ty < t.height ==> s.at(x + tx, y + ty) == #[trigger] t.at(tx, ty)
}

/// The three sums are one and the same number, which is not negative.
pub open spec fn all_equal(sums: Sums) -> bool {
    sums.cross == sums.template_sq && sums.screen_sq == sums.template_sq && sums.template_sq >= 0
}

/// Over a row of a template that the screen shows, the three sums are
/// equal.
proof fn lemma_row_of_crop(s: Bitmap, t: Bitmap, x: int, y: int, stride: int, ty: int, tx: int)
    requires
        shows(s, t, x, y),
        0 <= ty < t.height,
        0 <= tx,
    ensures
        all_equal(row_sums(s, t, x, y, stride, ty, tx)),
    decreases
        if tx < t.width {
            t.width - tx
        } else {
            0
        },
{
    if tx < t.width && stride >= 1 {
        lemma_row_of_crop(s, t, x, y, stride, ty, tx + stride);
        let a = t.at(tx, ty);
        assert(s.at(x + tx, y + ty) == a);
        assert(a * a >= 0) by (nonlinear_arith);
    }
}

/// Over a template that the screen shows, the three sums are equal.
proof fn lemma_grid_of_crop(s: Bitmap, t: Bitmap, x: int, y: int, stride: int, ty: int)
    requires
        shows(s, t, x, y),
        0 <= ty,
    ensures
        all_equal(grid_sums(s, t, x, y, stride, ty)),
    decreases
        if ty < t.height {
            t.height - ty
        } else {
            0
        },
{
    if ty < t.height && stride >= 1 {
        lemma_grid_of_crop(s, t, x, y, stride, ty + stride);
        lemma_row_of_crop(s, t, x, y, stride, ty, 0);
    }
}

/// Where the screen shows the template, the placement has the highest score
/// there is, unless every pixel that is looked at is black.
pub proof fn lemma_perfect_score(s: Bitmap, t: Bitmap, x: int, y: int, stride: int)
    requires
        shows(s, t, x, y),
        grid_sums(s, t, x, y, stride, 0).template_sq > 0,
    ensures
        score_at(s, t, x, y, stride) == SCORE_ONE,
{
    lemma_grid_of_crop(s, t, x, y, stride, 0);
    let c = grid_sums(s, t, x, y, stride, 0).cross;
    assert(c * c > 0) by (nonlinear_arith)
        requires
            c > 0,
    ;
    vstd::arithmetic::div_mod::lemma_div_multiples_vanish(SCORE_ONE as int, c * c);
}

/// No sum is negative, and the square of the cross sum is at most the
/// product of the two sums of squares.
pub open spec fn within_product(sums: Sums) -> bool {
    &&& 0 <= sums.cross
    &&& 0 <= sums.template_sq
    &&& 0 <= sums.screen_sq
    &&& sums.cross * sums.cross <= sums.template_sq * sums.screen_sq
}

/// Where the cross sums of two lots of pixels lie within the products of
/// their sums of squares, so does the cross sum of the two lots together.
proof fn lemma_within_product_plus(a: Sums, b: Sums)
    requires
        within_product(a),
        within_product(b),
    ensures
        within_product(a.plus(b)),
{
    let c1 = a.cross;
    let t1 = a.template_sq;
    let s1 = a.screen_sq;
    let c2 = b.cross;
    let t2 = b.template_sq;
    let s2 = b.screen_sq;
    let p = c1 * c1;
    let q = c2 * c2;
    let ab1 = t1 * s1;
    let ab2 = t2 * s2;
    let u = t1 * s2;
    let v = t2 * s1;
    let m = c1 * c2;
    assert(m >= 0 && u >= 0 && v >= 0 && p >= 0 && q >= 0) by (nonlinear_arith)
        requires
            m == c1 * c2,
            u == t1 * s2,
            v == t2 * s1,
            p == c1 * c1,
            q == c2 * c2,
            c1 >= 0,
            c2 >= 0,
            t1 >= 0,
            t2 >= 0,
            s1 >= 0,
            s2 >= 0,
    ;
    assert(m * m == p * q) by (nonlinear_arith)
        requires
            m == c1 * c2,
            p == c1 * c1,
            q == c2 * c2,
    ;
    assert(p * q <= ab1 * ab2) by (nonlinear_arith)
        requires
            0 <= p <= ab1,
            0 <= q <= ab2,
    ;
    assert(u * v == ab1 * ab2) by (nonlinear_arith)
        requires
            u == t1 * s2,
            v == t2 * s1,
            ab1 == t1 * s1,
            ab2 == t2 * s2,
    ;
    assert(4 * (u * v) <= (u + v) * (u + v)) by (nonlinear_arith);
    assert((2 * m) * (2 * m) == 4 * (m * m)) by (nonlinear_arith);
    assert(2 * m <= u + v) by (nonlinear_arith)
        requires
            (2 * m) * (2 * m) <= (u + v) * (u + v),
            m >= 0,
            u + v >= 0,
    ;
    assert((c1 + c2) * (c1 + c2) == p + q + 2 * m) by (nonlinear_arith)
        requires
            m == c1 * c2,
            p == c1 * c1,
            q == c2 * c2,
    ;
    assert((t1 + t2) * (s1 + s2) == ab1 + ab2 + u + v) by (nonlinear_arith)
        requires
            u == t1 * s2,
            v == t2 * s1,
            ab1 == t1 * s1,
            ab2 == t2 * s2,
    ;
}

/// For a single pixel the square of the cross term is the product of the two
/// squares.
proof fn lemma_term_within_product(s: Bitmap, t: Bitmap, x: int, y: int, tx: int, ty: int)
    ensures
        within_product(pixel_term(s, t, x, y, tx, ty)),
{
    let a = t.at(tx, ty);
    let b = s.at(x + tx, y + ty);
    assert(a * b >= 0 && a * a >= 0 && b * b >= 0 && (a * b) * (a * b) == (a * a) * (b * b))
        by (nonlinear_arith)
        requires
            a >= 0,
            b >= 0,
    ;
}

proof fn lemma_row_within_product(s: Bitmap, t: Bitmap, x: int, y: int, stride: int, ty: int, tx: int)
    ensures
        within_product(row_sums(s, t, x, y, stride, ty, tx)),
    decreases
        if tx < t.width {
            t.width - tx
        } else {
            0
        },
{
    if tx < t.width && stride >= 1 {
        lemma_row_within_product(s, t, x, y, stride, ty, tx + stride);
        lemma_term_within_product(s, t, x, y, tx, ty);
        lemma_within_product_plus(
            pixel_term(s, t, x, y, tx, ty),
            row_sums(s, t, x, y, stride, ty, tx + stride),
        );
    }
}

proof fn lemma_grid_within_product(s: Bitmap, t: Bitmap, x: int, y: int, stride: int, ty: int)
    ensures
        within_product(grid_sums(s, t, x, y, stride, ty)),
    decreases
        if ty < t.height {
            t.height - ty
        } else {
            0
        },
{
    if ty < t.height && stride >= 1 {
        lemma_grid_within_product(s, t, x, y, stride, ty + stride);
        lemma_row_within_product(s, t, x, y, stride, ty, 0);
        lemma_within_product_plus(
            row_sums(s, t, x, y, stride, ty, 0),
            grid_sums(s, t, x, y, stride, ty + stride),
        );
    }
}

/// A score that belongs to sums whose cross sum lies within the product of
/// the sums of squares is at most `SCORE_ONE`, and not negative.
pub proof fn lemma_score_of_at_most_one(sums: Sums)
    requires
        within_product(sums),
    ensures
        0 <= score_of(sums) <= SCORE_ONE,
{
    let d = sums.template_sq * sums.screen_sq;
    let n = sums.cross * sums.cross;
    if d > 0 {
        assert(0 <= n * SCORE_ONE <= d * SCORE_ONE) by (nonlinear_arith)
            requires
                0 <= n <= d,
        ;
        vstd::arithmetic::div_mod::lemma_div_is_ordered(n * SCORE_ONE, d * SCORE_ONE, d);
        vstd::arithmetic::div_mod::lemma_div_multiples_vanish(SCORE_ONE as int, d);
        vstd::arithmetic::div_mod::lemma_div_pos_is_pos(n * SCORE_ONE, d);
    }
}

/// No placement scores above `SCORE_ONE`, whatever the pictures hold: the
/// cross sum of two patches is at most the root of the product of their sums
/// of squares.
pub proof fn lemma_score_at_most_one(s: Bitmap, t: Bitmap, x: int, y: int, stride: int)
    ensures
        0 <= score_at(s, t, x, y, stride) <= SCORE_ONE,
{
    lemma_grid_within_product(s, t, x, y, stride, 0);
    lemma_score_of_at_most_one(grid_sums(s, t, x, y, stride, 0));
}

} // verus!
