//! Finding a small picture inside a large one.
//!
//! The search first looks at every second placement of the template and at
//! every second pixel, and then, if that looks promising, at every placement
//! and pixel close to the best one found. It does so for the template at
//! five sizes and reports the best placement of all.

use crate::correlation::{
    correlation, grid_sums, lemma_perfect_score, lemma_score_at_most_one, score_at, score_of,
    shows, Sums, SCORE_ONE,
};
use crate::error::AppError;
use crate::picture::{resample, Bitmap, GrayscaleBuffer, MAX_PIXELS};
use vstd::prelude::*;

verus! {

/// The best placement seen so far, as a mathematical value.
pub struct Best {
    pub score: int,
    pub x: int,
    pub y: int,
}

impl Best {
    /// Nothing seen yet: score zero at the origin.
    pub open spec fn none() -> Best {
        Best { score: 0, x: 0, y: 0 }
    }

    /// The best placement after one more has been seen. A later placement
    /// wins only with a strictly higher score.
    pub open spec fn improve(self, score: int, x: int, y: int) -> Best {
        if score > self.score {
            Best { score, x, y }
        } else {
            self
        }
    }

    /// The better of two results, the first winning a tie.
    pub open spec fn or_better(self, other: Best) -> Best {
        self.improve(other.score, other.x, other.y)
    }
}

/// A placement of the template with its score.
#[derive(Debug, Clone, Copy, PartialEq, Eq, Structural)]
pub struct MatchCandidate {
    /// Squared correlation in parts per 10^12.
    pub score: u128,
    /// Column of the top-left corner.
    pub x: u32,
    /// Row of the top-left corner.
    pub y: u32,
}

impl View for MatchCandidate {
    type V = Best;

    open spec fn view(&self) -> Best {
        Best { score: self.score as int, x: self.x as int, y: self.y as int }
    }
}

impl MatchCandidate {
    /// Nothing seen yet: score zero at the origin.
    pub fn none() -> (r: MatchCandidate)
        ensures
            r@ == Best::none(),
    {
        MatchCandidate { score: 0, x: 0, y: 0 }
    }

    /// The better of two results, `self` winning a tie.
    pub fn or_better(self, other: MatchCandidate) -> (r: MatchCandidate)
        ensures
            r@ == self@.or_better(other@),
    {
        if other.score > self.score {
            other
        } else {
            self
        }
    }
}

/// A grid of placements: `columns` by `rows` of them, `step` pixels apart,
/// the first at `(x0, y0)`. They are visited row by row.
pub struct Scan {
    pub x0: int,
    pub y0: int,
    pub columns: nat,
    pub rows: nat,
    pub step: int,
}

impl Scan {
    /// The column of the `i`-th placement of a row.
    pub open spec fn x(self, i: int) -> int {
        self.x0 + i * self.step
    }

    /// The row of the placements of the `j`-th row of the grid.
    pub open spec fn y(self, j: int) -> int {
        self.y0 + j * self.step
    }

    /// The template `t` fits on the screen `s` at every placement.
    pub open spec fn inside(self, s: Bitmap, t: Bitmap) -> bool {
        &&& self.step >= 1
        &&& self.columns >= 1
        &&& self.rows >= 1
        &&& s.fits(t, self.x0, self.y0)
        &&& s.fits(t, self.x(self.columns - 1), self.y(self.rows - 1))
    }

    /// `(x, y)` lies in the rectangle that the grid spans.
    pub open spec fn spans(self, x: int, y: int) -> bool {
        &&& self.x0 <= x <= self.x(self.columns - 1)
        &&& self.y0 <= y <= self.y(self.rows - 1)
    }
}

/// The best placement after the first `n` placements of row `row` of the
/// grid have been seen, starting from `start`.
pub open spec fn scan_row(
    s: Bitmap,
    t: Bitmap,
    g: Scan,
    stride: int,
    row: int,
    start: Best,
    n: nat,
) -> Best
    decreases n,
{
    if n == 0 {
        start
    } else {
        let x = g.x(n - 1);
        let y = g.y(row);
        scan_row(s, t, g, stride, row, start, (n - 1) as nat).improve(
            score_at(s, t, x, y, stride),
            x,
            y,
        )
    }
}

/// The best placement after the first `m` rows of the grid have been seen,
/// starting from `start`.
pub open spec fn scan_rows(s: Bitmap, t: Bitmap, g: Scan, stride: int, start: Best, m: nat) -> Best
    decreases m,
{
    if m == 0 {
        start
    } else {
        scan_row(
            s,
            t,
            g,
            stride,
            m - 1,
            scan_rows(s, t, g, stride, start, (m - 1) as nat),
            g.columns,
        )
    }
}

/// The best placement of a whole grid, starting from `start`.
pub open spec fn scan_all(s: Bitmap, t: Bitmap, g: Scan, stride: int, start: Best) -> Best {
    scan_rows(s, t, g, stride, start, g.rows)
}

/// The score of the placement in column `i` and row `j` of a grid.
pub open spec fn placement_score(s: Bitmap, t: Bitmap, g: Scan, stride: int, i: int, j: int) -> int {
    score_at(s, t, g.x(i), g.y(j), stride)
}

/// The placement `(i, j)` of the grid is visited before `(k, l)`.
pub open spec fn visited_before(i: int, j: int, k: int, l: int) -> bool {
    j < l || (j == l && i < k)
}

/// `r` is the placement in column `i` and row `j` of the grid with its
/// score, that score lies above the score of `start`, and every placement
/// visited before it has a lower score.
pub open spec fn is_first_above(
    s: Bitmap,
    t: Bitmap,
    g: Scan,
    stride: int,
    start: Best,
    r: Best,
    i: int,
    j: int,
) -> bool {
    &&& 0 <= i < g.columns
    &&& 0 <= j < g.rows
    &&& r == (Best { score: placement_score(s, t, g, stride, i, j), x: g.x(i), y: g.y(j) })
    &&& r.score > start.score
    &&& forall|k: int, l: int|
        0 <= k < g.columns && 0 <= l < g.rows && visited_before(k, l, i, j)
            ==> #[trigger] placement_score(s, t, g, stride, k, l) < r.score
}

/// `r` is the best of `start` and the first `n` placements of row `row`,
/// where the rows before `row` hold no score above that of `start`.
spec fn row_is_best(
    s: Bitmap,
    t: Bitmap,
    g: Scan,
    stride: int,
    row: int,
    start: Best,
    r: Best,
    n: int,
) -> bool {
    &&& r.score >= start.score
    &&& forall|k: int| 0 <= k < n ==> #[trigger] placement_score(s, t, g, stride, k, row) <= r.score
    &&& r == start || exists|i: int|
        {
            &&& 0 <= i < n
            &&& r == (Best {
                score: #[trigger] placement_score(s, t, g, stride, i, row),
                x: g.x(i),
                y: g.y(row),
            })
            &&& r.score > start.score
            &&& forall|k: int|
                0 <= k < i ==> #[trigger] placement_score(s, t, g, stride, k, row) < r.score
        }
}

proof fn lemma_scan_row_is_best(
    s: Bitmap,
    t: Bitmap,
    g: Scan,
    stride: int,
    row: int,
    start: Best,
    n: nat,
)
    ensures
        row_is_best(s, t, g, stride, row, start, scan_row(s, t, g, stride, row, start, n), n as int),
    decreases n,
{
    if n > 0 {
        lemma_scan_row_is_best(s, t, g, stride, row, start, (n - 1) as nat);
        let before = scan_row(s, t, g, stride, row, start, (n - 1) as nat);
        let r = scan_row(s, t, g, stride, row, start, n);
        let here = placement_score(s, t, g, stride, n - 1, row);
        assert(r == before.improve(here, g.x(n - 1), g.y(row)));
        if here > before.score {
            assert(r == (Best {
                score: placement_score(s, t, g, stride, n - 1, row),
                x: g.x(n - 1),
                y: g.y(row),
            }));
        } else if before != start {
            let i = choose|i: int|
                {
                    &&& 0 <= i < n - 1
                    &&& before == (Best {
                        score: #[trigger] placement_score(s, t, g, stride, i, row),
                        x: g.x(i),
                        y: g.y(row),
                    })
                    &&& before.score > start.score
                    &&& forall|k: int|
                        0 <= k < i ==> #[trigger] placement_score(s, t, g, stride, k, row)
                            < before.score
                };
            assert(0 <= i < n);
        }
    }
}

/// `r` is the best of `start` and the first `m` rows of the grid.
spec fn rows_are_best(s: Bitmap, t: Bitmap, g: Scan, stride: int, start: Best, r: Best, m: int) -> bool {
    &&& r.score >= start.score
    &&& forall|k: int, l: int|
        0 <= k < g.columns && 0 <= l < m ==> #[trigger] placement_score(s, t, g, stride, k, l)
            <= r.score
    &&& r == start || exists|i: int, j: int|
        0 <= j < m && #[trigger] is_first_above(s, t, g, stride, start, r, i, j)
}

proof fn lemma_scan_rows_are_best(s: Bitmap, t: Bitmap, g: Scan, stride: int, start: Best, m: nat)
    requires
        m <= g.rows,
    ensures
        rows_are_best(s, t, g, stride, start, scan_rows(s, t, g, stride, start, m), m as int),
    decreases m,
{
    if m > 0 {
        lemma_scan_rows_are_best(s, t, g, stride, start, (m - 1) as nat);
        let before = scan_rows(s, t, g, stride, start, (m - 1) as nat);
        let r = scan_rows(s, t, g, stride, start, m);
        lemma_scan_row_is_best(s, t, g, stride, m - 1, before, g.columns);
        assert(row_is_best(s, t, g, stride, m - 1, before, r, g.columns as int));
        if r != before {
            let i = choose|i: int|
                {
                    &&& 0 <= i < g.columns
                    &&& r == (Best {
                        score: #[trigger] placement_score(s, t, g, stride, i, m - 1),
                        x: g.x(i),
                        y: g.y(m - 1),
                    })
                    &&& r.score > before.score
                    &&& forall|k: int|
                        0 <= k < i ==> #[trigger] placement_score(s, t, g, stride, k, m - 1)
                            < r.score
                };
            assert forall|k: int, l: int|
                0 <= k < g.columns && 0 <= l < g.rows && visited_before(
                    k,
                    l,
                    i,
                    m - 1,
                ) implies #[trigger] placement_score(s, t, g, stride, k, l) < r.score by {
                if l < m - 1 {
                    assert(placement_score(s, t, g, stride, k, l) <= before.score);
                }
            }
            assert(is_first_above(s, t, g, stride, start, r, i, m - 1));
        } else if before != start {
            let (i, j) = choose|i: int, j: int|
                0 <= j < m - 1 && #[trigger] is_first_above(s, t, g, stride, start, before, i, j);
            assert(0 <= j < m && is_first_above(s, t, g, stride, start, r, i, j));
        }
    }
}

/// What a scan returns is the best there is: no placement of the grid has a
/// higher score than the result, the result is never worse than `start`,
/// and unless it is `start` itself it is the first placement with the
/// highest score, which then lies above the score of `start`.
pub proof fn lemma_scan_all_is_best(s: Bitmap, t: Bitmap, g: Scan, stride: int, start: Best)
    ensures
        scan_all(s, t, g, stride, start).score >= start.score,
        forall|k: int, l: int|
            0 <= k < g.columns && 0 <= l < g.rows ==> #[trigger] placement_score(
                s,
                t,
                g,
                stride,
                k,
                l,
            ) <= scan_all(s, t, g, stride, start).score,
        scan_all(s, t, g, stride, start) == start || exists|i: int, j: int| #[trigger]
            is_first_above(s, t, g, stride, start, scan_all(s, t, g, stride, start), i, j),
{
    lemma_scan_rows_are_best(s, t, g, stride, start, g.rows);
    let r = scan_all(s, t, g, stride, start);
    assert(rows_are_best(s, t, g, stride, start, r, g.rows as int));
    if r != start {
        let (i, j) = choose|i: int, j: int|
            0 <= j < g.rows && #[trigger] is_first_above(s, t, g, stride, start, r, i, j);
        assert(is_first_above(s, t, g, stride, start, r, i, j));
    }
}

/// A placement of the grid lies on the screen, between the first and the
/// last placement.
proof fn lemma_scan_placement(s: Bitmap, t: Bitmap, g: Scan, i: int, j: int)
    requires
        g.inside(s, t),
        0 <= i < g.columns,
        0 <= j < g.rows,
    ensures
        s.fits(t, g.x(i), g.y(j)),
        g.spans(g.x(i), g.y(j)),
{
    let step = g.step;
    let c = g.columns as int;
    let r = g.rows as int;
    assert(0 <= i * step <= (c - 1) * step) by (nonlinear_arith)
        requires
            0 <= i <= c - 1,
            step >= 1,
    ;
    assert(0 <= j * step <= (r - 1) * step) by (nonlinear_arith)
        requires
            0 <= j <= r - 1,
            step >= 1,
    ;
}

/// Scores every placement of a grid, row by row, and keeps the best: the
/// first placement with the highest score, if that score is above the score
/// of `start`, and `start` otherwise.
pub fn scan(
    screen: &GrayscaleBuffer,
    template: &GrayscaleBuffer,
    x0: u32,
    y0: u32,
    columns: u32,
    rows: u32,
    step: u32,
    stride: u32,
    start: MatchCandidate,
) -> (best: MatchCandidate)
    requires
        stride >= 1,
        (Scan {
            x0: x0 as int,
            y0: y0 as int,
            columns: columns as nat,
            rows: rows as nat,
            step: step as int,
        }).inside(screen@, template@),
    ensures
        best@ == scan_all(
            screen@,
            template@,
            Scan {
                x0: x0 as int,
                y0: y0 as int,
                columns: columns as nat,
                rows: rows as nat,
                step: step as int,
            },
            stride as int,
            start@,
        ),
        best == start || (Scan {
            x0: x0 as int,
            y0: y0 as int,
            columns: columns as nat,
            rows: rows as nat,
            step: step as int,
        }).spans(best.x as int, best.y as int),
        best.score >= start.score,
{
    let ghost s = screen@;
    let ghost t = template@;
    let ghost g = Scan {
        x0: x0 as int,
        y0: y0 as int,
        columns: columns as nat,
        rows: rows as nat,
        step: step as int,
    };
    let screen_width = screen.width();
    let screen_height = screen.height();
    let mut best = start;
    let mut j: u32 = 0;
    while j < rows
        invariant
            screen_width == s.width,
            screen_height == s.height,
            stride >= 1,
            s == screen@,
            t == template@,
            g == (Scan {
                x0: x0 as int,
                y0: y0 as int,
                columns: columns as nat,
                rows: rows as nat,
                step: step as int,
            }),
            g.inside(s, t),
            j <= rows,
            best@ == scan_rows(s, t, g, stride as int, start@, j as nat),
            best == start || g.spans(best.x as int, best.y as int),
            best.score >= start.score,
        decreases rows - j,
    {
        let ghost row_start = best@;
        proof {
            lemma_scan_placement(s, t, g, 0, j as int);
        }
        let y: u32 = y0 + j * step;
        let mut i: u32 = 0;
        while i < columns
            invariant
                screen_width == s.width,
                screen_height == s.height,
                stride >= 1,
                s == screen@,
                t == template@,
                g == (Scan {
                    x0: x0 as int,
                    y0: y0 as int,
                    columns: columns as nat,
                    rows: rows as nat,
                    step: step as int,
                }),
                g.inside(s, t),
                j < rows,
                i <= columns,
                y == g.y(j as int),
                best@ == scan_row(s, t, g, stride as int, j as int, row_start, i as nat),
                best == start || g.spans(best.x as int, best.y as int),
                best.score >= start.score,
            decreases columns - i,
        {
            proof {
                lemma_scan_placement(s, t, g, i as int, j as int);
            }
            let x: u32 = x0 + i * step;
            let score = correlation(screen, template, x, y, stride);
            if score > best.score {
                best = MatchCandidate { score, x, y };
            }
            i = i + 1;
        }
        j = j + 1;
    }
    best
}

/// The coarse pass looks at every second placement and every second pixel.
pub const COARSE_STEP: u32 = 2;

/// The fine pass looks this many pixels to each side of the coarse result.
pub const FINE_RADIUS: u32 = 4;

/// A scaled template with a side below this many pixels is not searched for.
pub const MIN_SIDE: u32 = 10;

/// The number of scales that are tried.
pub const SCALE_COUNT: usize = 5;

/// The grid of the coarse pass: every second placement of the template `t`
/// on the screen `s`, from the top-left corner on.
pub open spec fn coarse_grid(s: Bitmap, t: Bitmap) -> Scan {
    Scan {
        x0: 0,
        y0: 0,
        columns: ((s.width - t.width) / 2 + 1) as nat,
        rows: ((s.height - t.height) / 2 + 1) as nat,
        step: 2,
    }
}

/// The grid of the fine pass: every placement at most `FINE_RADIUS` pixels
/// away from `c` in each direction, as far as the screen reaches.
pub open spec fn fine_grid(s: Bitmap, t: Bitmap, c: Best) -> Scan {
    let x0 = if c.x >= 4 { c.x - 4 } else { 0 };
    let y0 = if c.y >= 4 { c.y - 4 } else { 0 };
    let x1 = if c.x + 4 <= s.width - t.width { c.x + 4 } else { s.width - t.width };
    let y1 = if c.y + 4 <= s.height - t.height { c.y + 4 } else { s.height - t.height };
    Scan { x0, y0, columns: (x1 - x0 + 1) as nat, rows: (y1 - y0 + 1) as nat, step: 1 }
}

/// The score reaches four fifths of the threshold, which is counted in
/// millionths: the coarse result is then worth a fine pass.
pub open spec fn worth_refining(score: int, threshold: int) -> bool {
    25 * score >= 16 * threshold * threshold
}

/// The score reaches the threshold, which is counted in millionths.
pub open spec fn meets_threshold(score: int, threshold: int) -> bool {
    score >= threshold * threshold
}

/// Rounding the score down does not change which placements reach a
/// threshold: a score reaches the threshold exactly when the correlation
/// itself does, that is, when the square of the cross sum is at least the
/// square of the threshold times the product of the two sums of squares.
pub proof fn lemma_threshold_is_exact(sums: Sums, threshold: int)
    requires
        sums.template_sq * sums.screen_sq > 0,
    ensures
        meets_threshold(score_of(sums), threshold) <==> sums.cross * sums.cross * SCORE_ONE
            >= threshold * threshold * (sums.template_sq * sums.screen_sq),
{
    let a = sums.cross * sums.cross * SCORE_ONE;
    let d = sums.template_sq * sums.screen_sq;
    let n = threshold * threshold;
    let q = a / d;
    vstd::arithmetic::div_mod::lemma_fundamental_div_mod(a, d);
    vstd::arithmetic::div_mod::lemma_mod_bound(a, d);
    assert(score_of(sums) == q);
    if q >= n {
        assert(d * q >= n * d) by (nonlinear_arith)
            requires
                q >= n,
                d > 0,
        ;
    } else {
        assert(d * q + d <= n * d) by (nonlinear_arith)
            requires
                q + 1 <= n,
                d > 0,
        ;
    }
}

/// The best placement of the template `t` on the screen `s`: the result of
/// the coarse pass, refined by the fine pass where the coarse score is
/// worth it.
pub open spec fn best_at_scale(s: Bitmap, t: Bitmap, threshold: int) -> Best {
    let coarse = scan_all(s, t, coarse_grid(s, t), 2, Best::none());
    if worth_refining(coarse.score, threshold) {
        scan_all(s, t, fine_grid(s, t, coarse), 1, coarse)
    } else {
        coarse
    }
}

/// Tells whether a coarse score is worth a fine pass.
pub fn refine_wanted(score: u128, threshold: u32) -> (r: bool)
    ensures
        r == worth_refining(score as int, threshold as int),
{
    assert(threshold * threshold <= 0xffff_ffff * 0xffff_ffff) by (nonlinear_arith)
        requires
            0 <= threshold <= 0xffff_ffff,
    ;
    assert(16 * threshold * threshold == 16 * (threshold * threshold)) by (nonlinear_arith);
    let square: u128 = (threshold as u128) * (threshold as u128);
    score >= (16 * square + 24) / 25
}

/// Tells whether a score reaches the threshold.
pub fn threshold_met(score: u128, threshold: u32) -> (r: bool)
    ensures
        r == meets_threshold(score as int, threshold as int),
{
    assert(threshold * threshold <= 0xffff_ffff * 0xffff_ffff) by (nonlinear_arith)
        requires
            0 <= threshold <= 0xffff_ffff,
    ;
    score >= (threshold as u128) * (threshold as u128)
}

/// Searches the screen for the template as it is given, without scaling it:
/// a coarse pass over every second placement and pixel, then, if the coarse
/// score reaches four fifths of the threshold, a fine pass around the coarse
/// result. The threshold is counted in millionths.
pub fn match_at_scale(screen: &GrayscaleBuffer, template: &GrayscaleBuffer, threshold: u32) -> (m:
    MatchCandidate)
    requires
        screen@.fits(template@, 0, 0),
    ensures
        m@ == best_at_scale(screen@, template@, threshold as int),
        m.x <= screen@.width - template@.width,
        m.y <= screen@.height - template@.height,
{
    let max_x: u32 = screen.width() - template.width();
    let max_y: u32 = screen.height() - template.height();
    let coarse = scan(
        screen,
        template,
        0,
        0,
        max_x / 2 + 1,
        max_y / 2 + 1,
        COARSE_STEP,
        COARSE_STEP,
        MatchCandidate::none(),
    );
    proof {
        let g = coarse_grid(screen@, template@);
        assert(g.x(g.columns - 1) == (max_x / 2) * 2);
        assert(g.y(g.rows - 1) == (max_y / 2) * 2);
    }
    if refine_wanted(coarse.score, threshold) {
        let x0: u32 = if coarse.x >= FINE_RADIUS {
            coarse.x - FINE_RADIUS
        } else {
            0
        };
        let y0: u32 = if coarse.y >= FINE_RADIUS {
            coarse.y - FINE_RADIUS
        } else {
            0
        };
        let x1: u32 = if max_x - coarse.x >= FINE_RADIUS {
            coarse.x + FINE_RADIUS
        } else {
            max_x
        };
        let y1: u32 = if max_y - coarse.y >= FINE_RADIUS {
            coarse.y + FINE_RADIUS
        } else {
            max_y
        };
        scan(screen, template, x0, y0, x1 - x0 + 1, y1 - y0 + 1, 1, 1, coarse)
    } else {
        coarse
    }
}

/// The percentage by which the template is scaled in the `i`-th attempt.
pub open spec fn scale_percent(i: int) -> int {
    if i == 0 {
        100
    } else if i == 1 {
        90
    } else if i == 2 {
        80
    } else if i == 3 {
        110
    } else {
        120
    }
}

/// A length scaled to `percent` hundredths, rounded down.
pub open spec fn scaled_len(len: int, percent: int) -> int {
    len * percent / 100
}

/// The template `t` scaled to `percent` hundredths is wider or higher than
/// the screen `s`.
pub open spec fn scale_too_large(s: Bitmap, t: Bitmap, percent: int) -> bool {
    scaled_len(t.width as int, percent) > s.width || scaled_len(t.height as int, percent)
        > s.height
}

/// The template `t` scaled to `percent` hundredths is searched for on the
/// screen `s`: it is no larger than the screen and no side is below
/// `MIN_SIDE`.
pub open spec fn scale_usable(s: Bitmap, t: Bitmap, percent: int) -> bool {
    &&& !scale_too_large(s, t, percent)
    &&& scaled_len(t.width as int, percent) >= MIN_SIDE
    &&& scaled_len(t.height as int, percent) >= MIN_SIDE
}

/// `r` can stand for the template `t` at `percent` hundredths of its size:
/// it has the scaled size, and at full size it is `t` itself.
pub open spec fn resampled_ok(t: Bitmap, r: Bitmap, percent: int) -> bool {
    &&& r.wf()
    &&& r.width == scaled_len(t.width as int, percent)
    &&& r.height == scaled_len(t.height as int, percent)
    &&& percent == 100 ==> r == t
}

/// The best placement over the first `n` scales, where `resampled[i]` is the
/// template at the `i`-th scale. A later scale wins only with a strictly
/// higher score.
pub open spec fn best_over_scales(
    s: Bitmap,
    t: Bitmap,
    resampled: Seq<Bitmap>,
    threshold: int,
    n: nat,
) -> Best
    decreases n,
{
    if n == 0 {
        Best::none()
    } else {
        let before = best_over_scales(s, t, resampled, threshold, (n - 1) as nat);
        if scale_usable(s, t, scale_percent(n - 1)) {
            before.or_better(best_at_scale(s, resampled[n - 1], threshold))
        } else {
            before
        }
    }
}

/// What the search reports for its best placement: the placement, if its
/// score reaches the threshold, and nothing otherwise.
pub open spec fn verdict(best: Best, threshold: int) -> Option<(i32, i32)> {
    if meets_threshold(best.score, threshold) {
        Some((best.x as i32, best.y as i32))
    } else {
        None
    }
}

/// `r` is a result of searching the screen `s` for the template `t`: a
/// failure exactly when the template is larger than the screen at every
/// scale, and otherwise the verdict on the best placement over all scales,
/// for some scaled templates of the right sizes.
pub open spec fn is_find_result(
    s: Bitmap,
    t: Bitmap,
    threshold: int,
    r: Result<Option<(i32, i32)>, AppError>,
) -> bool {
    &&& r.is_err() <==> (forall|i: int|
        0 <= i < SCALE_COUNT ==> scale_too_large(s, t, #[trigger] scale_percent(i)))
    &&& r.is_err() ==> r == Err::<Option<(i32, i32)>, AppError>(AppError::ConfigInputError)
    &&& r.is_ok() ==> exists|resampled: Seq<Bitmap>|
        {
            &&& resampled.len() == SCALE_COUNT
            &&& forall|i: int|
                0 <= i < SCALE_COUNT && scale_usable(s, t, scale_percent(i)) ==> resampled_ok(
                    t,
                    #[trigger] resampled[i],
                    scale_percent(i),
                )
            &&& r == Ok::<Option<(i32, i32)>, AppError>(
                verdict(
                    best_over_scales(s, t, resampled, threshold, SCALE_COUNT as nat),
                    threshold,
                ),
            )
        }
}

/// Turns the best placement into the result of the search.
pub fn conclude(best: MatchCandidate, threshold: u32) -> (r: Option<(i32, i32)>)
    requires
        best.x <= i32::MAX,
        best.y <= i32::MAX,
    ensures
        r == verdict(best@, threshold as int),
{
    if threshold_met(best.score, threshold) {
        Some((best.x as i32, best.y as i32))
    } else {
        None
    }
}

/// The percentage by which the template is scaled in the `i`-th attempt.
pub fn scale_at(i: usize) -> (percent: u32)
    ensures
        percent == scale_percent(i as int),
        80 <= percent <= 120,
{
    if i == 0 {
        100
    } else if i == 1 {
        90
    } else if i == 2 {
        80
    } else if i == 3 {
        110
    } else {
        120
    }
}

/// Searches the screen for the template at five scales (100, 90, 80, 110 and
/// 120 hundredths of its size) and reports the top-left corner of the best
/// placement, if its score reaches the threshold. The threshold is counted
/// in millionths.
///
/// A scale at which the template would be larger than the screen, or would
/// have a side below `MIN_SIDE` pixels, is passed over. If the template is
/// larger than the screen at every scale, the search fails.
///
/// The scaled templates come from a resampling filter of which only the
/// size of the result is known here; at full size the template is used as it
/// is. So the result is the verdict of `best_over_scales` for some scaled
/// templates of the right sizes.
pub fn find_template(screen: &GrayscaleBuffer, template: &GrayscaleBuffer, threshold: u32) -> (r:
    Result<Option<(i32, i32)>, AppError>)
    ensures
        is_find_result(screen@, template@, threshold as int, r),
{
    let template_width = template.width();
    let template_height = template.height();
    let screen_width = screen.width();
    let screen_height = screen.height();
    let ghost s = screen@;
    let ghost t = template@;
    let ghost mut resampled: Seq<Bitmap> = Seq::new(SCALE_COUNT as nat, |i: int| t);
    let mut best = MatchCandidate::none();
    let mut any_fits = false;
    let mut i: usize = 0;
    while i < SCALE_COUNT
        invariant
            template_width == t.width,
            template_height == t.height,
            screen_width == s.width,
            screen_height == s.height,
            i <= SCALE_COUNT,
            s == screen@,
            t == template@,
            s.wf(),
            t.wf(),
            resampled.len() == SCALE_COUNT,
            forall|k: int|
                0 <= k < i && scale_usable(s, t, scale_percent(k)) ==> resampled_ok(
                    t,
                    #[trigger] resampled[k],
                    scale_percent(k),
                ),
            best@ == best_over_scales(s, t, resampled, threshold as int, i as nat),
            best.x <= MAX_PIXELS,
            best.y <= MAX_PIXELS,
            any_fits <==> exists|k: int| 0 <= k < i && !scale_too_large(s, t, scale_percent(k)),
        decreases SCALE_COUNT - i,
    {
        let percent = scale_at(i);
        let ghost before = resampled;
        proof {
            let w = t.width as int;
            let h = t.height as int;
            assert(w * percent <= 0xffff_ffff * 120 && h * percent <= 0xffff_ffff * 120)
                by (nonlinear_arith)
                requires
                    0 <= w <= 0xffff_ffff,
                    0 <= h <= 0xffff_ffff,
                    0 <= percent <= 120,
            ;
            lemma_side_bound(s);
        }
        let width: u64 = (template_width as u64) * (percent as u64) / 100;
        let height: u64 = (template_height as u64) * (percent as u64) / 100;
        let fits = width <= screen_width as u64 && height <= screen_height as u64;
        if fits {
            any_fits = true;
            assert(!scale_too_large(s, t, scale_percent(i as int)));
        }
        if fits && width >= MIN_SIDE as u64 && height >= MIN_SIDE as u64 {
            let found = if percent == 100 {
                proof {
                    resampled = resampled.update(i as int, t);
                }
                match_at_scale(screen, template, threshold)
            } else {
                proof {
                    lemma_resample_bounds(s, t, percent as int);
                }
                let scaled = resample(template, width as u32, height as u32);
                proof {
                    resampled = resampled.update(i as int, scaled@);
                }
                match_at_scale(screen, &scaled, threshold)
            };
            best = best.or_better(found);
        }
        proof {
            lemma_best_over_scales_agrees(s, t, before, resampled, threshold as int, i as nat);
        }
        i = i + 1;
    }
    if !any_fits {
        return Err(AppError::ConfigInputError);
    }
    Ok(conclude(best, threshold))
}

/// The bounds that the resampling needs hold at every usable scale.
proof fn lemma_resample_bounds(s: Bitmap, t: Bitmap, percent: int)
    requires
        s.wf(),
        t.wf(),
        80 <= percent <= 120,
        scale_usable(s, t, percent),
    ensures
        t.width >= 1,
        t.height >= 1,
        scaled_len(t.width as int, percent) * scaled_len(t.height as int, percent) <= MAX_PIXELS,
        2 * t.width * scaled_len(t.height as int, percent) <= 3 * MAX_PIXELS,
{
    let w = scaled_len(t.width as int, percent);
    let h = scaled_len(t.height as int, percent);
    assert(t.width == 0 ==> t.width * percent == 0) by (nonlinear_arith);
    assert(t.height == 0 ==> t.height * percent == 0) by (nonlinear_arith);
    assert(w * h <= s.width * s.height) by (nonlinear_arith)
        requires
            0 <= w <= s.width,
            0 <= h <= s.height,
    ;
    assert(100 * h <= t.height * percent);
    assert(t.width * (100 * h) <= t.width * (t.height * percent)) by (nonlinear_arith)
        requires
            100 * h <= t.height * percent,
            t.width >= 0,
    ;
    assert(t.width * (t.height * percent) <= 120 * (t.width * t.height)) by (nonlinear_arith)
        requires
            percent <= 120,
            t.width >= 0,
            t.height >= 0,
    ;
    assert(2 * t.width * h * 50 == t.width * (100 * h)) by (nonlinear_arith);
}

/// Each side of a picture with at least one pixel is at most `MAX_PIXELS`.
proof fn lemma_side_bound(s: Bitmap)
    requires
        s.wf(),
    ensures
        s.height >= 1 ==> s.width <= MAX_PIXELS,
        s.width >= 1 ==> s.height <= MAX_PIXELS,
{
    if s.height >= 1 {
        assert(s.width <= s.width * s.height) by (nonlinear_arith)
            requires
                s.height >= 1,
                s.width >= 0,
        ;
    }
    if s.width >= 1 {
        assert(s.height <= s.width * s.height) by (nonlinear_arith)
            requires
                s.width >= 1,
                s.height >= 0,
        ;
    }
}

/// The best placement over the first `n` scales does not depend on the
/// templates of later scales.
proof fn lemma_best_over_scales_agrees(
    s: Bitmap,
    t: Bitmap,
    a: Seq<Bitmap>,
    b: Seq<Bitmap>,
    threshold: int,
    n: nat,
)
    requires
        forall|k: int| 0 <= k < n ==> a[k] == b[k],
    ensures
        best_over_scales(s, t, a, threshold, n) == best_over_scales(s, t, b, threshold, n),
    decreases n,
{
    if n > 0 {
        lemma_best_over_scales_agrees(s, t, a, b, threshold, (n - 1) as nat);
    }
}

/// The point to click for a match whose top-left corner is `origin`: the
/// corner moved by `click_offset`, if there is one, and otherwise the centre
/// of the matched region, which has the size of the template.
pub open spec fn click_point(
    origin: (i32, i32),
    width: u32,
    height: u32,
    click_offset: Option<(i32, i32)>,
) -> (int, int) {
    match click_offset {
        Some(offset) => (origin.0 + offset.0, origin.1 + offset.1),
        None => (origin.0 + width / 2, origin.1 + height / 2),
    }
}

/// Both coordinates of the point are screen coordinates that an `i32` holds.
pub open spec fn point_fits(p: (int, int)) -> bool {
    i32::MIN <= p.0 <= i32::MAX && i32::MIN <= p.1 <= i32::MAX
}

/// The point to click for a match at `origin`.
pub fn resolve_click_point(
    origin: (i32, i32),
    width: u32,
    height: u32,
    click_offset: Option<(i32, i32)>,
) -> (p: (i32, i32))
    requires
        point_fits(click_point(origin, width, height, click_offset)),
    ensures
        (p.0 as int, p.1 as int) == click_point(origin, width, height, click_offset),
{
    match click_offset {
        Some(offset) => (origin.0 + offset.0, origin.1 + offset.1),
        None => {
            let dx: i64 = (width / 2) as i64;
            let dy: i64 = (height / 2) as i64;
            ((origin.0 as i64 + dx) as i32, (origin.1 as i64 + dy) as i32)
        },
    }
}

/// What `find_click_point` makes of the result `found` of the search: a
/// failure stays one, no match stays none, and a match becomes its click
/// point, or a failure if that point is no screen coordinate.
pub open spec fn located(
    found: Result<Option<(i32, i32)>, AppError>,
    width: u32,
    height: u32,
    click_offset: Option<(i32, i32)>,
) -> Result<Option<(i32, i32)>, AppError> {
    match found {
        Err(e) => Err(e),
        Ok(None) => Ok(None),
        Ok(Some(origin)) => {
            let p = click_point(origin, width, height, click_offset);
            if point_fits(p) {
                Ok(Some((p.0 as i32, p.1 as i32)))
            } else {
                Err(AppError::ConfigInputError)
            }
        },
    }
}

/// Searches the screen for the template and reports the point to click: the
/// match moved by `click_offset`, or the centre of the match where no offset
/// is given. The threshold is counted in millionths.
pub fn find_click_point(
    screen: &GrayscaleBuffer,
    template: &GrayscaleBuffer,
    threshold: u32,
    click_offset: Option<(i32, i32)>,
) -> (r: Result<Option<(i32, i32)>, AppError>)
    ensures
        exists|found: Result<Option<(i32, i32)>, AppError>|
            is_find_result(screen@, template@, threshold as int, found) && r == located(
                found,
                template@.width as u32,
                template@.height as u32,
                click_offset,
            ),
{
    let found = find_template(screen, template, threshold);
    let width = template.width();
    let height = template.height();
    let r = match found {
        Err(e) => Err(e),
        Ok(None) => Ok(None),
        Ok(Some(origin)) => {
            let fits = match click_offset {
                Some(offset) => {
                    let x: i64 = origin.0 as i64 + offset.0 as i64;
                    let y: i64 = origin.1 as i64 + offset.1 as i64;
                    -2147483648 <= x && x <= 2147483647 && -2147483648 <= y && y <= 2147483647
                },
                None => {
                    let x: i64 = origin.0 as i64 + (width / 2) as i64;
                    let y: i64 = origin.1 as i64 + (height / 2) as i64;
                    x <= 2147483647 && y <= 2147483647
                },
            };
            if fits {
                Ok(Some(resolve_click_point(origin, width, height, click_offset)))
            } else {
                Err(AppError::ConfigInputError)
            }
        },
    };
    assert(r == located(found, width, height, click_offset));
    r
}

/// The hypotheses under which a template is certain to be found: the screen
/// shows it pixel for pixel at a placement of the coarse pass, not every
/// pixel that the coarse pass looks at is black, no side of it is below
/// `MIN_SIDE`, and the threshold is at most 1.0.
pub open spec fn shown_for_search(s: Bitmap, t: Bitmap, x: int, y: int, threshold: int) -> bool {
    &&& s.fits(t, x, y)
    &&& x % 2 == 0
    &&& y % 2 == 0
    &&& shows(s, t, x, y)
    &&& grid_sums(s, t, x, y, 2, 0).template_sq > 0
    &&& t.width >= MIN_SIDE
    &&& t.height >= MIN_SIDE
    &&& 0 <= threshold <= 1_000_000
}

/// A scan that starts from a score of at most `SCORE_ONE` ends on one.
pub proof fn lemma_scan_all_at_most_one(s: Bitmap, t: Bitmap, g: Scan, stride: int, start: Best)
    requires
        start.score <= SCORE_ONE,
    ensures
        scan_all(s, t, g, stride, start).score <= SCORE_ONE,
{
    lemma_scan_all_is_best(s, t, g, stride, start);
    let r = scan_all(s, t, g, stride, start);
    if r != start {
        let (i, j) = choose|i: int, j: int| #[trigger] is_first_above(s, t, g, stride, start, r, i, j);
        lemma_score_at_most_one(s, t, g.x(i), g.y(j), stride);
    }
}

/// The best placement of a template never scores above `SCORE_ONE`.
pub proof fn lemma_best_at_scale_at_most_one(s: Bitmap, t: Bitmap, threshold: int)
    ensures
        best_at_scale(s, t, threshold).score <= SCORE_ONE,
{
    lemma_scan_all_at_most_one(s, t, coarse_grid(s, t), 2, Best::none());
    let coarse = scan_all(s, t, coarse_grid(s, t), 2, Best::none());
    lemma_scan_all_at_most_one(s, t, fine_grid(s, t, coarse), 1, coarse);
}

/// Once a scale has given a perfect score, no later scale takes its place.
proof fn lemma_best_over_scales_stays(
    s: Bitmap,
    t: Bitmap,
    resampled: Seq<Bitmap>,
    threshold: int,
    m: nat,
    n: nat,
)
    requires
        m <= n,
        best_over_scales(s, t, resampled, threshold, m).score == SCORE_ONE,
    ensures
        best_over_scales(s, t, resampled, threshold, n) == best_over_scales(
            s,
            t,
            resampled,
            threshold,
            m,
        ),
    decreases n - m,
{
    if m < n {
        lemma_best_over_scales_stays(s, t, resampled, threshold, m, (n - 1) as nat);
        lemma_best_at_scale_at_most_one(s, resampled[n - 1], threshold);
    }
}

/// The coarse pass over a screen that shows the template ends on a perfect
/// score, at the first placement at which it sees one. That placement is
/// visited no later than the one at which the template is shown.
pub proof fn lemma_shown_template_coarse(s: Bitmap, t: Bitmap, x: int, y: int, threshold: int)
    requires
        shown_for_search(s, t, x, y, threshold),
    ensures
        ({
            let g = coarse_grid(s, t);
            let coarse = scan_all(s, t, g, 2, Best::none());
            &&& coarse.score == SCORE_ONE
            &&& exists|i: int, j: int|
                #[trigger] is_first_above(s, t, g, 2, Best::none(), coarse, i, j) && !visited_before(
                    x / 2,
                    y / 2,
                    i,
                    j,
                )
        }),
{
    let g = coarse_grid(s, t);
    let coarse = scan_all(s, t, g, 2, Best::none());
    let i0 = x / 2;
    let j0 = y / 2;
    assert(g.step == 2 && g.x0 == 0 && g.y0 == 0);
    assert(i0 * 2 == x && j0 * 2 == y);
    assert(g.x(i0) == x && g.y(j0) == y) by {
        assert(i0 * g.step == i0 * 2);
        assert(j0 * g.step == j0 * 2);
    }
    assert(0 <= i0 < g.columns && 0 <= j0 < g.rows);
    lemma_perfect_score(s, t, x, y, 2);
    assert(placement_score(s, t, g, 2, i0, j0) == SCORE_ONE);
    lemma_scan_all_is_best(s, t, g, 2, Best::none());
    lemma_scan_all_at_most_one(s, t, g, 2, Best::none());
    assert(coarse.score == SCORE_ONE);
    let (i, j) = choose|i: int, j: int|
        #[trigger] is_first_above(s, t, g, 2, Best::none(), coarse, i, j);
    if visited_before(i0, j0, i, j) {
        assert(placement_score(s, t, g, 2, i0, j0) < coarse.score);
    }
    assert(is_first_above(s, t, g, 2, Best::none(), coarse, i, j) && !visited_before(
        x / 2,
        y / 2,
        i,
        j,
    ));
}

/// A fine pass that starts from a perfect score finds nothing better.
proof fn lemma_fine_pass_keeps_perfect(s: Bitmap, t: Bitmap, coarse: Best)
    requires
        coarse.score == SCORE_ONE,
    ensures
        scan_all(s, t, fine_grid(s, t, coarse), 1, coarse) == coarse,
{
    let f = fine_grid(s, t, coarse);
    lemma_scan_all_is_best(s, t, f, 1, coarse);
    let fine = scan_all(s, t, f, 1, coarse);
    if fine != coarse {
        let (k, l) = choose|k: int, l: int| #[trigger] is_first_above(s, t, f, 1, coarse, fine, k, l);
        lemma_score_at_most_one(s, t, f.x(k), f.y(l), 1);
    }
}

/// At its own size, a template that the screen shows is matched where the
/// coarse pass ends.
pub proof fn lemma_shown_template_at_scale(s: Bitmap, t: Bitmap, x: int, y: int, threshold: int)
    requires
        shown_for_search(s, t, x, y, threshold),
    ensures
        best_at_scale(s, t, threshold) == scan_all(s, t, coarse_grid(s, t), 2, Best::none()),
        best_at_scale(s, t, threshold).score == SCORE_ONE,
{
    lemma_shown_template_coarse(s, t, x, y, threshold);
    let coarse = scan_all(s, t, coarse_grid(s, t), 2, Best::none());
    lemma_fine_pass_keeps_perfect(s, t, coarse);
}

/// Where a template that the screen shows is found: at the first placement
/// of the coarse pass at which the coarse pass sees a perfect match.
pub proof fn lemma_shown_template_position(
    s: Bitmap,
    t: Bitmap,
    x: int,
    y: int,
    threshold: int,
    r: Result<Option<(i32, i32)>, AppError>,
)
    requires
        shown_for_search(s, t, x, y, threshold),
        is_find_result(s, t, threshold, r),
    ensures
        ({
            let coarse = scan_all(s, t, coarse_grid(s, t), 2, Best::none());
            r == Ok::<Option<(i32, i32)>, AppError>(Some((coarse.x as i32, coarse.y as i32)))
        }),
{
    let coarse = scan_all(s, t, coarse_grid(s, t), 2, Best::none());
    lemma_shown_template_at_scale(s, t, x, y, threshold);
    assert(scale_percent(0) == 100);
    assert(scaled_len(t.width as int, 100) == t.width);
    assert(scaled_len(t.height as int, 100) == t.height);
    assert(!scale_too_large(s, t, scale_percent(0)));
    assert(scale_usable(s, t, scale_percent(0)));
    assert(r.is_ok());
    let resampled = choose|resampled: Seq<Bitmap>|
        {
            &&& resampled.len() == SCALE_COUNT
            &&& forall|i: int|
                0 <= i < SCALE_COUNT && scale_usable(s, t, scale_percent(i)) ==> resampled_ok(
                    t,
                    #[trigger] resampled[i],
                    scale_percent(i),
                )
            &&& r == Ok::<Option<(i32, i32)>, AppError>(
                verdict(
                    best_over_scales(s, t, resampled, threshold, SCALE_COUNT as nat),
                    threshold,
                ),
            )
        };
    assert(resampled_ok(t, resampled[0], scale_percent(0)));
    assert(resampled[0] == t);
    assert(best_over_scales(s, t, resampled, threshold, 0) == Best::none());
    assert(best_over_scales(s, t, resampled, threshold, 1) == Best::none().or_better(
        best_at_scale(s, resampled[0], threshold),
    ));
    assert(best_over_scales(s, t, resampled, threshold, 1) == coarse);
    lemma_best_over_scales_stays(s, t, resampled, threshold, 1, SCALE_COUNT as nat);
    assert(threshold * threshold <= 1_000_000 * 1_000_000) by (nonlinear_arith)
        requires
            0 <= threshold <= 1_000_000,
    ;
}

/// A template that the screen shows is found: the search reports a match.
pub proof fn lemma_shown_template_is_found(
    s: Bitmap,
    t: Bitmap,
    x: int,
    y: int,
    threshold: int,
    r: Result<Option<(i32, i32)>, AppError>,
)
    requires
        shown_for_search(s, t, x, y, threshold),
        is_find_result(s, t, threshold, r),
    ensures
        r.is_ok(),
        r.unwrap().is_some(),
{
    lemma_shown_template_position(s, t, x, y, threshold, r);
}

/// A template that the screen shows at a placement of the coarse pass, and
/// which the coarse pass sees nowhere before that placement, is found exactly
/// there.
pub proof fn lemma_shown_template_is_found_there(
    s: Bitmap,
    t: Bitmap,
    x: int,
    y: int,
    threshold: int,
    r: Result<Option<(i32, i32)>, AppError>,
)
    requires
        shown_for_search(s, t, x, y, threshold),
        is_find_result(s, t, threshold, r),
        forall|k: int, l: int|
            0 <= k < coarse_grid(s, t).columns && 0 <= l < coarse_grid(s, t).rows
                && visited_before(k, l, x / 2, y / 2) ==> #[trigger] placement_score(
                s,
                t,
                coarse_grid(s, t),
                2,
                k,
                l,
            ) < SCORE_ONE,
    ensures
        r == Ok::<Option<(i32, i32)>, AppError>(Some((x as i32, y as i32))),
{
    lemma_shown_template_position(s, t, x, y, threshold, r);
    lemma_shown_template_coarse(s, t, x, y, threshold);
    let g = coarse_grid(s, t);
    let coarse = scan_all(s, t, g, 2, Best::none());
    let (i, j) = choose|i: int, j: int|
        #[trigger] is_first_above(s, t, g, 2, Best::none(), coarse, i, j) && !visited_before(
            x / 2,
            y / 2,
            i,
            j,
        );
    if i != x / 2 || j != y / 2 {
        assert(visited_before(i, j, x / 2, y / 2));
        assert(placement_score(s, t, g, 2, i, j) < SCORE_ONE);
    }
    assert(g.x(i) == x && g.y(j) == y);
}

} // verus!
