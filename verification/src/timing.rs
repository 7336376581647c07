//! When to click and for how long: the pause between clicks, the time a
//! button is held, the kind of click and the steps that make it up.

use crate::config::{ClickOptions, ClickType, Config};
use crate::pick::{sum_weights, total_weight, weighted_index, weighted_pick, weights_of};
use crate::rng::draw_below;
use rand::rngs::ThreadRng;
use vstd::prelude::*;

verus! {

/// The shortest time a button is held, in milliseconds.
pub const MIN_CLICK_DURATION: u64 = 40;

/// The longest time a button is held, in milliseconds.
pub const MAX_CLICK_DURATION: u64 = 150;

/// The click loop looks at its flags this often while it waits, in
/// milliseconds.
pub const POLL_INTERVAL: u64 = 100;

/// The draws from which a pause between `min` and `max` is made: the numbers
/// below `max - min`, and zero where the two bounds are equal.
pub open spec fn delay_draw_allowed(min: u64, max: u64, draw: int) -> bool {
    if min == max {
        draw == 0
    } else {
        0 <= draw < max - min
    }
}

/// The pause that a draw stands for: the draw, counted from `min`.
pub open spec fn delay_for(min: u64, draw: int) -> int {
    min + draw
}

/// The pause that a draw stands for.
pub fn delay_for_draw(min: u64, max: u64, draw: u64) -> (delay: u64)
    requires
        min <= max,
        draw <= max - min,
    ensures
        delay == delay_for(min, draw as int),
        min <= delay <= max,
{
    min + draw
}

/// Draws the pause before the next click: a number of milliseconds from
/// `min` up to, but not including, `max`. Where the two bounds are equal
/// there is nothing to draw, and the pause is that bound.
pub fn next_delay(min: u64, max: u64, rng: &mut ThreadRng) -> (delay: u64)
    requires
        min <= max,
    ensures
        exists|draw: int| delay_draw_allowed(min, max, draw) && delay == #[trigger] delay_for(min, draw),
        min <= delay <= max,
        min < max ==> delay < max,
        min == max ==> delay == min,
{
    let draw: u64 = if min == max {
        0
    } else {
        draw_below(rng, (max - min) as u128) as u64
    };
    assert(delay_draw_allowed(min, max, draw as int));
    delay_for_draw(min, max, draw)
}

/// The time a button is held for a sample of the press-time distribution:
/// the sample, in whole milliseconds, kept within
/// `MIN_CLICK_DURATION..=MAX_CLICK_DURATION`.
pub open spec fn clamped_duration(sample: int) -> int {
    if sample < MIN_CLICK_DURATION {
        MIN_CLICK_DURATION as int
    } else if sample > MAX_CLICK_DURATION {
        MAX_CLICK_DURATION as int
    } else {
        sample
    }
}

/// Brings a sample of the press-time distribution into the range of press
/// times that a person could produce.
pub fn next_click_duration(sample: i64) -> (duration: u64)
    ensures
        duration == clamped_duration(sample as int),
        MIN_CLICK_DURATION <= duration <= MAX_CLICK_DURATION,
{
    if sample < 40 {
        MIN_CLICK_DURATION
    } else if sample > 150 {
        MAX_CLICK_DURATION
    } else {
        sample as u64
    }
}

/// The kind of click that a draw selects from the weighted kinds: the kind
/// that the walk picks, and a single click where the weights sum to zero or
/// the walk picks none.
pub open spec fn click_type_for(options: &ClickOptions, draw: int) -> ClickType {
    let weights = weights_of(options.click_type_weights@);
    if total_weight(weights) == 0 {
        ClickType::Single
    } else {
        match weighted_index(weights, draw) {
            Some(i) => options.click_type_weights@[i].0,
            None => ClickType::Single,
        }
    }
}

/// The draws from which a kind of click is selected: the numbers below the
/// sum of the weights, and zero where that sum is zero.
pub open spec fn click_draw_allowed(options: &ClickOptions, draw: int) -> bool {
    0 <= draw < total_weight(weights_of(options.click_type_weights@)) || draw == 0
}

/// Selects the kind of click for a draw.
pub fn click_type_for_draw(options: &ClickOptions, draw: u128) -> (r: ClickType)
    ensures
        r == click_type_for(options, draw as int),
{
    if sum_weights(&options.click_type_weights) == 0 {
        return ClickType::Single;
    }
    match weighted_pick(&options.click_type_weights, draw) {
        Some(i) => options.click_type_weights[i].0,
        None => ClickType::Single,
    }
}

/// The kind of the next click: the configured kind, or, where kinds are
/// randomised, one drawn by weight.
pub fn get_click_type(rng: &mut ThreadRng, config: &Config) -> (r: ClickType)
    ensures
        !config.click_options.randomize_click_type ==> r == config.click_options.click_type,
        config.click_options.randomize_click_type ==> exists|draw: int|
            click_draw_allowed(&config.click_options, draw) && r == click_type_for(
                &config.click_options,
                draw,
            ),
{
    if !config.click_options.randomize_click_type {
        return config.click_options.click_type;
    }
    let total = sum_weights(&config.click_options.click_type_weights);
    let draw: u128 = if total == 0 {
        0
    } else {
        draw_below(rng, total)
    };
    assert(click_draw_allowed(&config.click_options, draw as int));
    click_type_for_draw(&config.click_options, draw)
}

/// A button of the pointer.
#[derive(Debug, Clone, Copy, PartialEq, Eq, Structural)]
pub enum MouseButton {
    Left,
    Right,
    Middle,
}

/// One step of a click.
#[derive(Debug, Clone, Copy, PartialEq, Eq, Structural)]
pub enum ClickStep {
    /// Press the button and keep it down.
    Press(MouseButton),
    /// Let the button go.
    Release(MouseButton),
    /// Do nothing for this many milliseconds.
    Wait(u64),
}

/// The button that a kind of click uses.
pub open spec fn button_of(click_type: ClickType) -> MouseButton {
    match click_type {
        ClickType::Single => MouseButton::Left,
        ClickType::Double => MouseButton::Left,
        ClickType::Right => MouseButton::Right,
        ClickType::Middle => MouseButton::Middle,
    }
}

/// One press of `button` that lasts `duration` milliseconds.
pub open spec fn press_steps(button: MouseButton, duration: u64) -> Seq<ClickStep> {
    seq![ClickStep::Press(button), ClickStep::Wait(duration), ClickStep::Release(button)]
}

/// The steps of a click: one press of the button of its kind, and for a
/// double click a second press after a pause of `gap` milliseconds.
pub open spec fn click_steps(click_type: ClickType, duration: u64, gap: u64) -> Seq<ClickStep> {
    let press = press_steps(button_of(click_type), duration);
    if click_type == ClickType::Double {
        press + seq![ClickStep::Wait(gap)] + press
    } else {
        press
    }
}

/// The button that a kind of click uses.
pub fn click_button(click_type: ClickType) -> (button: MouseButton)
    ensures
        button == button_of(click_type),
{
    match click_type {
        ClickType::Single => MouseButton::Left,
        ClickType::Double => MouseButton::Left,
        ClickType::Right => MouseButton::Right,
        ClickType::Middle => MouseButton::Middle,
    }
}

/// The steps that perform a click of the given kind, each press lasting
/// `duration` milliseconds, with `gap` milliseconds between the two presses
/// of a double click.
pub fn click_sequence(click_type: ClickType, duration: u64, gap: u64) -> (steps: Vec<ClickStep>)
    ensures
        steps@ == click_steps(click_type, duration, gap),
{
    let button = click_button(click_type);
    let mut steps: Vec<ClickStep> = Vec::new();
    steps.push(ClickStep::Press(button));
    steps.push(ClickStep::Wait(duration));
    steps.push(ClickStep::Release(button));
    if click_type == ClickType::Double {
        steps.push(ClickStep::Wait(gap));
        steps.push(ClickStep::Press(button));
        steps.push(ClickStep::Wait(duration));
        steps.push(ClickStep::Release(button));
    }
    assert(steps@ =~= click_steps(click_type, duration, gap));
    steps
}

/// Whether the pause after a click goes on: it does until `delay`
/// milliseconds have passed, and ends at once when the loop is paused or
/// told to stop.
pub fn keep_sleeping(elapsed: u64, delay: u64, paused: bool, should_stop: bool) -> (r: bool)
    ensures
        r == (elapsed < delay && !paused && !should_stop),
{
    elapsed < delay && !paused && !should_stop
}

} // verus!
