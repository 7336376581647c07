//! Where to click: the choice of the click area and of the point inside it.

use crate::config::{AreaSelectionMode, ClickArea, Config};
use crate::pick::{sum_weights, total_weight, weighted_index, weighted_pick, weights_of};
use crate::rng::draw_below;
use rand::rngs::ThreadRng;
use vstd::arithmetic::div_mod::{
    lemma_add_mod_noop, lemma_fundamental_div_mod, lemma_mod_multiples_vanish, lemma_mod_self_0,
    lemma_small_mod,
};
use vstd::prelude::*;

verus! {

/// Half of `d`, rounded towards zero.
pub open spec fn half_toward_zero(d: int) -> int {
    if d >= 0 {
        d / 2
    } else {
        -((-d) / 2)
    }
}

/// The top-left corner of a rectangle of the given size placed in the middle
/// of the screen.
pub open spec fn centered_origin(screen_width: int, screen_height: int, width: int, height: int) -> (
    int,
    int,
) {
    (half_toward_zero(screen_width - width), half_toward_zero(screen_height - height))
}

/// The top-left corner of a click area on a screen of the given size: the
/// centred position for a centred area, and its offsets otherwise.
pub open spec fn area_origin(screen_width: int, screen_height: int, area: ClickArea) -> (int, int) {
    if area.centered {
        centered_origin(screen_width, screen_height, area.width as int, area.height as int)
    } else {
        (area.x_offset as int, area.y_offset as int)
    }
}

/// Half of the difference of two coordinates, rounded towards zero.
fn half_difference(a: i32, b: i32) -> (r: i32)
    ensures
        r == half_toward_zero(a - b),
{
    let d: i64 = a as i64 - b as i64;
    if d >= 0 {
        (d / 2) as i32
    } else {
        (-((-d) / 2)) as i32
    }
}

/// The top-left corner of a rectangle of the given size placed in the middle
/// of a screen of the given size.
pub fn calculate_centered_area(screen_width: i32, screen_height: i32, width: i32, height: i32) -> (r:
    (i32, i32))
    ensures
        (r.0 as int, r.1 as int) == centered_origin(
            screen_width as int,
            screen_height as int,
            width as int,
            height as int,
        ),
{
    (half_difference(screen_width, width), half_difference(screen_height, height))
}

/// The top-left corner of a click area on a screen of the given size.
pub fn calculate_click_area(screen_width: i32, screen_height: i32, area: &ClickArea) -> (r: (
    i32,
    i32,
))
    ensures
        (r.0 as int, r.1 as int) == area_origin(screen_width as int, screen_height as int, *area),
{
    if area.centered {
        calculate_centered_area(screen_width, screen_height, area.width, area.height)
    } else {
        (area.x_offset, area.y_offset)
    }
}

/// The click loop uses the primary area: multi-area mode is off or there is
/// no area to choose from.
pub open spec fn uses_primary(config: &Config) -> bool {
    !config.multi_area.enabled || config.multi_area.areas@.len() == 0
}

/// The area that sequential selection returns for a cursor over `n` areas.
pub open spec fn sequential_index(cursor: int, n: int) -> int {
    cursor % n
}

/// The cursor after sequential selection has returned an area.
pub open spec fn cursor_after(cursor: int, n: int) -> int {
    (cursor % n + 1) % n
}

/// The area that a weighted draw selects: the one that the walk picks, and
/// the first area where the walk picks none.
pub open spec fn weighted_area_index(areas: Seq<(ClickArea, u32)>, draw: int) -> int {
    match weighted_index(weights_of(areas), draw) {
        Some(i) => i,
        None => 0,
    }
}

/// The area that is selected in multi-area mode with the given cursor and
/// draw.
pub open spec fn selected_index(config: &Config, cursor: int, draw: int) -> int {
    let areas = config.multi_area.areas@;
    match config.multi_area.selection_mode {
        AreaSelectionMode::Sequential => sequential_index(cursor, areas.len() as int),
        AreaSelectionMode::Random => draw % (areas.len() as int),
        AreaSelectionMode::Weighted => weighted_area_index(areas, draw),
    }
}

/// The cursor after a selection in multi-area mode: sequential selection
/// moves it on by one area, the other modes leave it alone.
pub open spec fn cursor_next(config: &Config, cursor: int) -> int {
    match config.multi_area.selection_mode {
        AreaSelectionMode::Sequential => cursor_after(cursor, config.multi_area.areas@.len() as int),
        _ => cursor,
    }
}

/// The draws that a selection can be made with: an index for random
/// selection, a number below the sum of the weights for weighted selection
/// (zero where that sum is zero), and zero for sequential selection, which
/// draws nothing.
pub open spec fn draw_allowed(config: &Config, draw: int) -> bool {
    let areas = config.multi_area.areas@;
    match config.multi_area.selection_mode {
        AreaSelectionMode::Sequential => draw == 0,
        AreaSelectionMode::Random => 0 <= draw < areas.len(),
        AreaSelectionMode::Weighted => {
            let total = total_weight(weights_of(areas));
            if total == 0 {
                draw == 0
            } else {
                0 <= draw < total
            }
        },
    }
}

/// Selects an area in multi-area mode with the given cursor and draw, and
/// says where the cursor stands afterwards.
pub fn select_area(config: &Config, cursor: usize, draw: u128) -> (r: (usize, usize))
    requires
        !uses_primary(config),
    ensures
        r.0 == selected_index(config, cursor as int, draw as int),
        r.1 == cursor_next(config, cursor as int),
        r.0 < config.multi_area.areas@.len(),
{
    let n = config.multi_area.areas.len();
    match config.multi_area.selection_mode {
        AreaSelectionMode::Sequential => {
            let index = cursor % n;
            let next = if index + 1 == n {
                0
            } else {
                index + 1
            };
            proof {
                if index + 1 < n {
                    lemma_small_mod((index + 1) as nat, n as nat);
                } else {
                    lemma_mod_self_0(n as int);
                }
            }
            (index, next)
        },
        AreaSelectionMode::Random => {
            let index = (draw % (n as u128)) as usize;
            (index, cursor)
        },
        AreaSelectionMode::Weighted => {
            match weighted_pick(&config.multi_area.areas, draw) {
                Some(i) => (i, cursor),
                None => (0, cursor),
            }
        },
    }
}

/// Chooses the area for the next click and works out its top-left corner on
/// a screen of the given size.
///
/// While multi-area mode is off, or no area is configured, this is the
/// primary area. Otherwise sequential selection returns the area under the
/// cursor and moves the cursor on by one, wrapping at the end of the list; a
/// cursor beyond the list counts from its start again. Random selection
/// draws any area, and weighted selection draws a number below the sum of the
/// weights and walks the list with it.
pub fn get_next_click_area(
    config: &Config,
    current_index: &mut usize,
    rng: &mut ThreadRng,
    screen_width: i32,
    screen_height: i32,
) -> (r: (ClickArea, (i32, i32)))
    ensures
        uses_primary(config) ==> r.0 == config.click_area && *final(current_index) == *old(
            current_index,
        ),
        !uses_primary(config) ==> exists|draw: int|
            {
                &&& draw_allowed(config, draw)
                &&& r.0 == config.multi_area.areas@[selected_index(
                    config,
                    *old(current_index) as int,
                    draw,
                )].0
            },
        !uses_primary(config) ==> *final(current_index) == cursor_next(
            config,
            *old(current_index) as int,
        ),
        (r.1.0 as int, r.1.1 as int) == area_origin(screen_width as int, screen_height as int, r.0),
        area_is_choice(config, r.0),
{
    if !config.multi_area.enabled || config.multi_area.areas.len() == 0 {
        let origin = calculate_click_area(screen_width, screen_height, &config.click_area);
        return (config.click_area, origin);
    }
    let n = config.multi_area.areas.len();
    let draw: u128 = match config.multi_area.selection_mode {
        AreaSelectionMode::Sequential => 0,
        AreaSelectionMode::Random => draw_below(rng, n as u128),
        AreaSelectionMode::Weighted => {
            let total = sum_weights(&config.multi_area.areas);
            if total == 0 {
                0
            } else {
                draw_below(rng, total)
            }
        },
    };
    assert(draw_allowed(config, draw as int));
    let (index, next) = select_area(config, *current_index, draw);
    *current_index = next;
    let area = config.multi_area.areas[index].0;
    assert(area == config.multi_area.areas@[index as int].0);
    let origin = calculate_click_area(screen_width, screen_height, &area);
    (area, origin)
}

/// The rectangle with its top-left corner at `(start_x, start_y)` holds only
/// coordinates that an `i32` can hold.
pub open spec fn area_on_grid(start_x: int, start_y: int, width: int, height: int) -> bool {
    &&& width > 0
    &&& height > 0
    &&& start_x + width - 1 <= i32::MAX
    &&& start_y + height - 1 <= i32::MAX
}

/// The point of a rectangle that lies `dx` columns and `dy` rows from its
/// top-left corner.
pub fn point_at(start_x: i32, start_y: i32, dx: u32, dy: u32) -> (p: (i32, i32))
    requires
        start_x + dx <= i32::MAX,
        start_y + dy <= i32::MAX,
    ensures
        p.0 == start_x + dx,
        p.1 == start_y + dy,
{
    ((start_x as i64 + dx as i64) as i32, (start_y as i64 + dy as i64) as i32)
}

/// Draws a point of the rectangle of the given size whose top-left corner is
/// `(start_x, start_y)`. The point never lies outside the rectangle.
pub fn generate_random_coordinates(
    start_x: i32,
    start_y: i32,
    width: i32,
    height: i32,
    rng: &mut ThreadRng,
) -> (p: (i32, i32))
    requires
        area_on_grid(start_x as int, start_y as int, width as int, height as int),
    ensures
        start_x <= p.0 < start_x + width,
        start_y <= p.1 < start_y + height,
{
    let dx = draw_below(rng, width as u128);
    let dy = draw_below(rng, height as u128);
    point_at(start_x, start_y, dx as u32, dy as u32)
}

/// A point can be drawn inside `area` on a screen of the given size: the
/// area has a positive width and height and does not reach beyond the
/// coordinates that an `i32` holds.
pub open spec fn area_clickable(screen_width: int, screen_height: int, area: ClickArea) -> bool {
    let origin = area_origin(screen_width, screen_height, area);
    area_on_grid(origin.0, origin.1, area.width as int, area.height as int)
}

/// `p` lies inside `area` on a screen of the given size.
pub open spec fn point_in_area(
    screen_width: int,
    screen_height: int,
    area: ClickArea,
    p: (i32, i32),
) -> bool {
    let origin = area_origin(screen_width, screen_height, area);
    &&& origin.0 <= p.0 < origin.0 + area.width
    &&& origin.1 <= p.1 < origin.1 + area.height
}

/// Chooses the area for the next click and draws a point inside it. When no
/// point can be drawn inside the chosen area, `None` comes back; the cursor
/// moves on all the same.
pub fn choose_click_point(
    config: &Config,
    current_index: &mut usize,
    rng: &mut ThreadRng,
    screen_width: i32,
    screen_height: i32,
) -> (r: Option<(i32, i32)>)
    ensures
        uses_primary(config) ==> *final(current_index) == *old(current_index),
        !uses_primary(config) ==> *final(current_index) == cursor_next(
            config,
            *old(current_index) as int,
        ),
        match r {
            Some(p) => exists|area: ClickArea|
                {
                    &&& #[trigger] area_is_choice(config, area)
                    &&& area_clickable(screen_width as int, screen_height as int, area)
                    &&& point_in_area(screen_width as int, screen_height as int, area, p)
                },
            None => exists|area: ClickArea|
                {
                    &&& #[trigger] area_is_choice(config, area)
                    &&& !area_clickable(screen_width as int, screen_height as int, area)
                },
        },
{
    let (area, origin) = get_next_click_area(
        config,
        current_index,
        rng,
        screen_width,
        screen_height,
    );
    let fits = area.width > 0 && area.height > 0 && origin.0 as i64 + area.width as i64 - 1
        <= 2147483647 && origin.1 as i64 + area.height as i64 - 1 <= 2147483647;
    if fits {
        let p = generate_random_coordinates(origin.0, origin.1, area.width, area.height, rng);
        assert(point_in_area(screen_width as int, screen_height as int, area, p));
        Some(p)
    } else {
        None
    }
}

/// `area` is one that the configuration lets the click loop choose: the
/// primary area while multi-area mode is off or empty, and one of the listed
/// areas otherwise.
pub open spec fn area_is_choice(config: &Config, area: ClickArea) -> bool {
    if uses_primary(config) {
        area == config.click_area
    } else {
        exists|i: int|
            0 <= i < config.multi_area.areas@.len() && area
                == (#[trigger] config.multi_area.areas@[i]).0
    }
}

/// The cursor before the `k`-th of a run of sequential selections over `n`
/// areas that began with the cursor at `start`.
pub open spec fn cursor_at(start: int, n: int, k: nat) -> int
    decreases k,
{
    if k == 0 {
        start
    } else {
        cursor_after(cursor_at(start, n, (k - 1) as nat), n)
    }
}

/// The area that the `k`-th of a run of sequential selections returns.
pub open spec fn visited(start: int, n: int, k: nat) -> int {
    sequential_index(cursor_at(start, n, k), n)
}

/// The `k`-th sequential selection returns the area `k` places after the
/// one under the starting cursor, counting round the list.
pub proof fn lemma_visited(start: int, n: int, k: nat)
    requires
        n > 0,
        start >= 0,
    ensures
        visited(start, n, k) == (start + k) % n,
    decreases k,
{
    if k > 0 {
        let before = cursor_at(start, n, (k - 1) as nat);
        lemma_visited(start, n, (k - 1) as nat);
        assert(before % n == (start + k - 1) % n);
        lemma_add_mod_noop(start + k - 1, 1, n);
        lemma_add_mod_noop(before % n, 1, n);
        lemma_small_mod((before % n) as nat, n as nat);
        vstd::arithmetic::div_mod::lemma_mod_twice(before % n + 1, n);
    }
}

/// Any `n` sequential selections in a row over `n` areas return every area
/// exactly once, whatever the cursor was at the start.
pub proof fn lemma_sequential_visits_each_once(start: int, n: int, area: int)
    requires
        n > 0,
        start >= 0,
        0 <= area < n,
    ensures
        exists|k: nat| k < n && #[trigger] visited(start, n, k) == area,
        forall|j: nat, k: nat|
            j < n && k < n && #[trigger] visited(start, n, j) == area && #[trigger] visited(
                start,
                n,
                k,
            ) == area ==> j == k,
{
    let first = start % n;
    let k: nat = if area >= first {
        (area - first) as nat
    } else {
        (area - first + n) as nat
    };
    lemma_visited(start, n, k);
    lemma_fundamental_div_mod(start, n);
    let q = start / n;
    if area >= first {
        assert(start + k == n * q + area);
        lemma_mod_multiples_vanish(q, area, n);
    } else {
        assert(start + k == n * (q + 1) + area) by (nonlinear_arith)
            requires
                start == n * q + first,
                k == area - first + n,
        ;
        lemma_mod_multiples_vanish(q + 1, area, n);
    }
    lemma_small_mod(area as nat, n as nat);
    assert(visited(start, n, k) == area);
    assert forall|i: nat, j: nat|
        i < n && j < n && #[trigger] visited(start, n, i) == area && #[trigger] visited(
            start,
            n,
            j,
        ) == area implies i == j by {
        lemma_visited(start, n, i);
        lemma_visited(start, n, j);
        lemma_same_place(start, n, i as int, j as int);
    }
}

/// Two counts below `n` that lead to the same place round a list of `n` are
/// the same count.
proof fn lemma_same_place(start: int, n: int, i: int, j: int)
    requires
        n > 0,
        0 <= i < n,
        0 <= j < n,
        (start + i) % n == (start + j) % n,
    ensures
        i == j,
{
    lemma_fundamental_div_mod(start + i, n);
    lemma_fundamental_div_mod(start + j, n);
    let qi = (start + i) / n;
    let qj = (start + j) / n;
    assert(i - j == n * (qi - qj)) by (nonlinear_arith)
        requires
            start + i == n * qi + (start + i) % n,
            start + j == n * qj + (start + j) % n,
            (start + i) % n == (start + j) % n,
    ;
    if qi - qj >= 1 {
        assert(n * (qi - qj) >= n) by (nonlinear_arith)
            requires
                qi - qj >= 1,
                n > 0,
        ;
    }
    if qi - qj <= -1 {
        assert(n * (qi - qj) <= -n) by (nonlinear_arith)
            requires
                qi - qj <= -1,
                n > 0,
        ;
    }
}

} // verus!
