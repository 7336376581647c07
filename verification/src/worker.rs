//! The click loop as a state machine.
//!
//! A controller starts, pauses, resumes and stops the loop; the loop runs on
//! its own and looks at two flags before each of its steps. Here are the
//! decisions of both sides, on plain values: the caller owns the thread, the
//! clock and the lock.

use crate::config::{ClickArea, ClickType, Config};
use crate::error::AppError;
use crate::mouse::{
    area_clickable, area_is_choice, choose_click_point, cursor_next, point_in_area, uses_primary,
};
use crate::movement::{movement_path, path};
use crate::status::ClickerStatus;
use crate::timing::{
    click_draw_allowed, click_sequence, click_steps, click_type_for, clamped_duration,
    get_click_type, next_click_duration, next_delay, ClickStep,
};
use rand::rngs::ThreadRng;
use vstd::prelude::*;

verus! {

/// What the controller and the click loop share.
#[derive(Debug, Clone, Copy, PartialEq, Eq, Structural)]
pub struct AutomationState {
    pub status: ClickerStatus,
    /// Clicks made since the state was created.
    pub click_count: u32,
    /// Clock reading, in milliseconds, at which the loop was started; none
    /// while it is stopped.
    pub start_time: Option<u64>,
    /// The area that sequential selection returns next.
    pub current_area_cursor: usize,
}

impl AutomationState {
    /// The state before the loop was ever started.
    pub fn new() -> (r: Self)
        ensures
            r == (AutomationState {
                status: ClickerStatus::Stopped,
                click_count: 0,
                start_time: None,
                current_area_cursor: 0,
            }),
    {
        AutomationState {
            status: ClickerStatus::Stopped,
            click_count: 0,
            start_time: None,
            current_area_cursor: 0,
        }
    }

    /// Begins the statistics anew at clock reading `now`: no clicks yet,
    /// counted from `now`.
    pub fn reset_statistics(&mut self, now: u64)
        ensures
            *final(self) == (AutomationState {
                click_count: 0,
                start_time: Some(now),
                ..*old(self)
            }),
    {
        self.click_count = 0;
        self.start_time = Some(now);
    }

    /// Counts one click.
    pub fn record_click(&mut self)
        requires
            old(self).click_count < u32::MAX,
        ensures
            *final(self) == (AutomationState {
                click_count: (old(self).click_count + 1) as u32,
                ..*old(self)
            }),
    {
        self.click_count = self.click_count + 1;
    }
}

/// The two flags that the click loop looks at.
#[derive(Debug, Clone, Copy, PartialEq, Eq, Structural)]
pub struct Flags {
    pub paused: bool,
    pub should_stop: bool,
}

/// What the click loop does next.
#[derive(Debug, Clone, Copy, PartialEq, Eq, Structural)]
pub enum LoopStep {
    /// Leave the loop for good.
    Exit,
    /// Wait a short while and look at the flags again.
    Idle,
    /// Choose a point, move there, click, count the click and pause.
    Click,
}

/// The step that the loop takes when it sees the given flags: it leaves when
/// told to stop, idles while paused, and clicks otherwise.
pub open spec fn step_for(flags: Flags) -> LoopStep {
    if flags.should_stop {
        LoopStep::Exit
    } else if flags.paused {
        LoopStep::Idle
    } else {
        LoopStep::Click
    }
}

/// Decides the next step of the click loop from the flags it sees.
pub fn next_step(flags: Flags) -> (step: LoopStep)
    ensures
        step == step_for(flags),
{
    if flags.should_stop {
        LoopStep::Exit
    } else if flags.paused {
        LoopStep::Idle
    } else {
        LoopStep::Click
    }
}

/// How the loop goes on after it tried to move the pointer.
#[derive(Debug, Clone, Copy, PartialEq, Eq, Structural)]
pub enum MoveEnd {
    /// The pointer is where the click is to be made: press the buttons.
    Press,
    /// The pointer was not moved: give the iteration up before any button is
    /// pressed and start it again, without counting and without pausing.
    Retry,
}

/// What follows the attempt to move the pointer: the buttons are pressed
/// only after a move that succeeded.
pub open spec fn end_of_move(outcome: Result<(), AppError>) -> MoveEnd {
    if outcome.is_ok() {
        MoveEnd::Press
    } else {
        MoveEnd::Retry
    }
}

/// What the loop does after it tried to move the pointer. A failed move
/// gives the iteration up; it does not end the loop.
pub fn after_move(outcome: Result<(), AppError>) -> (end: MoveEnd)
    ensures
        end == end_of_move(outcome),
{
    match outcome {
        Ok(_) => MoveEnd::Press,
        Err(_) => MoveEnd::Retry,
    }
}

/// How an iteration that set out to click ends.
#[derive(Debug, Clone, Copy, PartialEq, Eq, Structural)]
pub enum IterationEnd {
    /// The click was made: count it and pause before the next one.
    Counted,
    /// The click was not made: start the iteration again, without counting
    /// and without pausing.
    Retry,
}

/// How an iteration ends whose planning, moving and clicking had the given
/// outcome: it counts only if nothing failed.
pub open spec fn end_of_attempt(outcome: Result<(), AppError>) -> IterationEnd {
    if outcome.is_ok() {
        IterationEnd::Counted
    } else {
        IterationEnd::Retry
    }
}

/// What the loop does after it tried to move and click. No failure ends the
/// loop: after any of them the iteration starts again.
pub fn after_attempt(outcome: Result<(), AppError>) -> (end: IterationEnd)
    ensures
        end == end_of_attempt(outcome),
{
    match outcome {
        Ok(_) => IterationEnd::Counted,
        Err(_) => IterationEnd::Retry,
    }
}

/// What the loop meets in one iteration: the flags it sees, and how the move
/// of the pointer and the click turn out if the iteration gets to them.
pub struct Look {
    pub flags: Flags,
    pub moved: Result<(), AppError>,
    pub clicked: Result<(), AppError>,
}

/// The click loop as seen from outside: whether it has left, in how many
/// iterations it has pressed a button, and how many clicks it has counted.
pub struct LoopState {
    pub exited: bool,
    pub presses: nat,
    pub clicks: nat,
}

/// The loop after one more iteration. A loop that has left stays as it is.
/// An iteration that sets out to click presses the buttons only after a move
/// that succeeded, and counts only a click that succeeded.
pub open spec fn after(state: LoopState, look: Look) -> LoopState {
    if state.exited {
        state
    } else {
        match step_for(look.flags) {
            LoopStep::Exit => LoopState { exited: true, ..state },
            LoopStep::Idle => state,
            LoopStep::Click => match end_of_move(look.moved) {
                MoveEnd::Retry => state,
                MoveEnd::Press => match end_of_attempt(look.clicked) {
                    IterationEnd::Retry => LoopState { presses: state.presses + 1, ..state },
                    IterationEnd::Counted => LoopState {
                        presses: state.presses + 1,
                        clicks: state.clicks + 1,
                        ..state
                    },
                },
            },
        }
    }
}

/// The loop after one iteration for each entry of `seen`, in that order.
pub open spec fn after_all(state: LoopState, seen: Seq<Look>) -> LoopState
    decreases seen.len(),
{
    if seen.len() == 0 {
        state
    } else {
        after(after_all(state, seen.drop_last()), seen.last())
    }
}

/// An iteration in which the pointer cannot be moved is given up: no button
/// is pressed and no click is counted for it. The loop does not leave on
/// that account: it has left afterwards only if it had left before or was
/// told to stop.
pub proof fn lemma_failed_move_is_given_up(state: LoopState, look: Look)
    requires
        look.moved.is_err(),
    ensures
        after(state, look).presses == state.presses,
        after(state, look).clicks == state.clicks,
        after(state, look).exited == (state.exited || look.flags.should_stop),
{
}

/// No failure ends the loop, and none is counted: after an iteration in
/// which the move or the click failed the count is what it was, and the loop
/// has left only if it had left before or was told to stop.
pub proof fn lemma_failure_is_not_counted(state: LoopState, look: Look)
    requires
        look.moved.is_err() || look.clicked.is_err(),
    ensures
        after(state, look).clicks == state.clicks,
        after(state, look).exited == (state.exited || look.flags.should_stop),
{
}

/// While the loop sees the pause flag (or the stop flag) in every
/// iteration, it presses no button and counts no click: both counts at the
/// end of the interval are what they were at its start.
pub proof fn lemma_no_click_while_paused(state: LoopState, seen: Seq<Look>)
    requires
        forall|i: int|
            0 <= i < seen.len() ==> (#[trigger] seen[i]).flags.paused || seen[i].flags.should_stop,
    ensures
        after_all(state, seen).clicks == state.clicks,
        after_all(state, seen).presses == state.presses,
    decreases seen.len(),
{
    if seen.len() > 0 {
        let before = seen.drop_last();
        assert forall|i: int| 0 <= i < before.len() implies (#[trigger] before[i]).flags.paused
            || before[i].flags.should_stop by {
            assert(before[i] == seen[i]);
        }
        lemma_no_click_while_paused(state, before);
        assert(seen.last() == seen[seen.len() - 1]);
    }
}

/// A loop that has left never clicks again, whatever it is shown later.
pub proof fn lemma_exited_stays(state: LoopState, seen: Seq<Look>)
    requires
        state.exited,
    ensures
        after_all(state, seen) == state,
    decreases seen.len(),
{
    if seen.len() > 0 {
        lemma_exited_stays(state, seen.drop_last());
    }
}

/// Going through `first` and then through `second` is going through the two
/// in a row.
pub proof fn lemma_after_all_concat(state: LoopState, first: Seq<Look>, second: Seq<Look>)
    ensures
        after_all(state, first + second) == after_all(after_all(state, first), second),
    decreases second.len(),
{
    if second.len() == 0 {
        assert(first + second =~= first);
    } else {
        assert((first + second).drop_last() =~= first + second.drop_last());
        assert((first + second).last() == second.last());
        lemma_after_all_concat(state, first, second.drop_last());
    }
}

/// Once the loop has seen the stop flag it has left, and the counts do not
/// change after that: whatever it is shown later, they stay what they were
/// when the flag was seen.
pub proof fn lemma_no_click_after_stop(
    state: LoopState,
    before: Seq<Look>,
    stop: Look,
    later: Seq<Look>,
)
    requires
        stop.flags.should_stop,
    ensures
        after_all(state, before.push(stop)).exited,
        after_all(state, before.push(stop) + later) == after_all(state, before.push(stop)),
        after_all(state, before.push(stop)).clicks == after_all(state, before).clicks,
        after_all(state, before.push(stop)).presses == after_all(state, before).presses,
{
    assert(before.push(stop).drop_last() =~= before);
    assert(before.push(stop).last() == stop);
    lemma_after_all_concat(state, before.push(stop), later);
    lemma_exited_stays(after_all(state, before.push(stop)), later);
}

/// The controller's handle on the click loop.
#[derive(Debug, Clone, Copy, PartialEq, Eq, Structural)]
pub struct AutomationWorker {
    /// A loop was started and has not been stopped since.
    pub active: bool,
    /// The pause flag that the loop looks at.
    pub paused: bool,
    /// The stop flag that the loop looks at.
    pub should_stop: bool,
}

impl AutomationWorker {
    /// A handle with no loop behind it.
    pub fn new() -> (r: Self)
        ensures
            r == (AutomationWorker { active: false, paused: false, should_stop: false }),
    {
        AutomationWorker { active: false, paused: false, should_stop: false }
    }

    /// The flags as the loop sees them.
    pub fn flags(&self) -> (r: Flags)
        ensures
            r == (Flags { paused: self.paused, should_stop: self.should_stop }),
    {
        Flags { paused: self.paused, should_stop: self.should_stop }
    }

    /// Starts the loop at clock reading `now`. While a loop is active nothing
    /// changes and the answer is `false`. Otherwise both flags are cleared,
    /// the shared state is set to running with `now` as its start time, and
    /// the answer is `true`: the caller is to begin the loop.
    pub fn start(&mut self, state: &mut AutomationState, now: u64) -> (begin: bool)
        ensures
            (*final(self), *final(state), begin) == started(*old(self), *old(state), now),
            begin == !old(self).active,
            !begin ==> *final(self) == *old(self) && *final(state) == *old(state),
            begin ==> *final(self) == (AutomationWorker {
                active: true,
                paused: false,
                should_stop: false,
            }),
            begin ==> *final(state) == (AutomationState {
                status: ClickerStatus::Running,
                start_time: Some(now),
                ..*old(state)
            }),
    {
        if self.active {
            return false;
        }
        self.active = true;
        self.paused = false;
        self.should_stop = false;
        state.status = ClickerStatus::Running;
        state.start_time = Some(now);
        true
    }

    /// Raises the pause flag. The shared state of an active loop that is not
    /// on its way out becomes paused.
    pub fn pause(&mut self, state: &mut AutomationState)
        ensures
            *final(self) == (AutomationWorker { paused: true, ..*old(self) }),
            *final(state) == (AutomationState {
                status: if old(self).running() {
                    ClickerStatus::Paused
                } else {
                    old(state).status
                },
                ..*old(state)
            }),
    {
        if self.is_running() {
            state.status = ClickerStatus::Paused;
        }
        self.paused = true;
    }

    /// Lowers the pause flag. The shared state of an active loop that is not
    /// on its way out becomes running.
    pub fn resume(&mut self, state: &mut AutomationState)
        ensures
            *final(self) == (AutomationWorker { paused: false, ..*old(self) }),
            *final(state) == (AutomationState {
                status: if old(self).running() {
                    ClickerStatus::Running
                } else {
                    old(state).status
                },
                ..*old(state)
            }),
    {
        if self.is_running() {
            state.status = ClickerStatus::Running;
        }
        self.paused = false;
    }

    /// Stops the loop. Without an active loop nothing changes and the answer
    /// is `false`. Otherwise the stop flag is raised, the handle lets go of
    /// the loop, the shared state becomes stopped and loses its start time,
    /// and the answer is `true`: the caller is to wait until the loop has
    /// left before it goes on.
    pub fn stop(&mut self, state: &mut AutomationState) -> (wait: bool)
        ensures
            wait == old(self).active,
            !wait ==> *final(self) == *old(self) && *final(state) == *old(state),
            wait ==> *final(self) == (AutomationWorker {
                active: false,
                should_stop: true,
                ..*old(self)
            }),
            wait ==> *final(state) == (AutomationState {
                status: ClickerStatus::Stopped,
                start_time: None,
                ..*old(state)
            }),
            wait ==> step_for(final(self).flags_of()) == LoopStep::Exit,
    {
        if !self.active {
            return false;
        }
        self.should_stop = true;
        self.active = false;
        state.status = ClickerStatus::Stopped;
        state.start_time = None;
        true
    }

    /// The flags as the loop sees them.
    pub open spec fn flags_of(&self) -> Flags {
        Flags { paused: self.paused, should_stop: self.should_stop }
    }

    /// A loop is active and has not been told to stop.
    pub open spec fn running(&self) -> bool {
        self.active && !self.should_stop
    }

    /// Whether a loop is active and has not been told to stop.
    pub fn is_running(&self) -> (r: bool)
        ensures
            r == self.running(),
    {
        self.active && !self.should_stop
    }

    /// Whether the pause flag is up.
    pub fn is_paused(&self) -> (r: bool)
        ensures
            r == self.paused,
    {
        self.paused
    }
}

/// Starting twice without a stop in between begins one loop only: the second
/// start changes nothing.
pub proof fn lemma_second_start_is_rejected(
    fresh: AutomationWorker,
    state: AutomationState,
    now: u64,
    later: u64,
)
    requires
        !fresh.active,
    ensures
        ({
            let (w1, s1, begin1) = started(fresh, state, now);
            let (w2, s2, begin2) = started(w1, s1, later);
            begin1 && !begin2 && w2 == w1 && s2 == s1
        }),
{
}

/// What `start` makes of a handle and the shared state, and its answer.
pub open spec fn started(worker: AutomationWorker, state: AutomationState, now: u64) -> (
    AutomationWorker,
    AutomationState,
    bool,
) {
    if worker.active {
        (worker, state, false)
    } else {
        (
            AutomationWorker { active: true, paused: false, should_stop: false },
            AutomationState { status: ClickerStatus::Running, start_time: Some(now), ..state },
            true,
        )
    }
}

/// Everything one iteration of the click loop is to do: first the path, and
/// then, if `after_move` says so, the steps, the count and the pause.
#[derive(Debug)]
pub struct ClickPlan {
    /// The point to click.
    pub point: (i32, i32),
    /// The positions through which the pointer moves to get there.
    pub path: Vec<(i32, i32)>,
    /// The presses, releases and waits of the click.
    pub steps: Vec<ClickStep>,
    /// The pause after the click, in milliseconds.
    pub delay: u64,
}

/// The configuration lets an iteration be planned on a screen of the given
/// size: the screen has pixels and the delay bounds are ordered.
pub open spec fn can_plan(config: &Config, screen_width: i32, screen_height: i32) -> bool {
    screen_width >= 1 && screen_height >= 1 && config.click_timing.wf()
}

/// The kinds of click that the configuration can lead to.
pub open spec fn click_type_possible(config: &Config, kind: ClickType) -> bool {
    if config.click_options.randomize_click_type {
        exists|draw: int|
            click_draw_allowed(&config.click_options, draw) && kind == #[trigger] click_type_for(
                &config.click_options,
                draw,
            )
    } else {
        kind == config.click_options.click_type
    }
}

/// `plan` is a plan for one iteration with the pointer at `pointer`: its
/// point lies in an area that the configuration lets the loop choose, its
/// path leads from the pointer to that point, its steps are those of a click
/// of a kind that the configuration allows, held for the sample brought into
/// range, and its delay lies within the delay bounds.
pub open spec fn is_plan(
    config: &Config,
    screen_width: i32,
    screen_height: i32,
    pointer: (i32, i32),
    press_sample: i64,
    plan: ClickPlan,
) -> bool {
    &&& exists|area: ClickArea|
        {
            &&& #[trigger] area_is_choice(config, area)
            &&& area_clickable(screen_width as int, screen_height as int, area)
            &&& point_in_area(screen_width as int, screen_height as int, area, plan.point)
        }
    &&& plan.path@ == path(pointer, plan.point, screen_width as int, screen_height as int)
    &&& exists|kind: ClickType|
        {
            &&& #[trigger] click_type_possible(config, kind)
            &&& plan.steps@ == click_steps(
                kind,
                clamped_duration(press_sample as int) as u64,
                config.click_timing.double_click_gap,
            )
        }
    &&& config.click_timing.min_delay <= plan.delay <= config.click_timing.max_delay
    &&& config.click_timing.min_delay < config.click_timing.max_delay ==> plan.delay
        < config.click_timing.max_delay
}

/// Plans one iteration of the click loop: where to click, how to get there
/// from `pointer`, what the click consists of and how long to pause after
/// it. `press_sample` is a sample of the press-time distribution in
/// milliseconds.
///
/// Nothing is planned, and the cursor stays where it is, on a screen without
/// pixels and with delay bounds out of order. Nothing is planned either when
/// no point can be drawn in the chosen area; the cursor has then moved on.
pub fn plan_click(
    config: &Config,
    current_index: &mut usize,
    rng: &mut ThreadRng,
    screen_width: i32,
    screen_height: i32,
    pointer: (i32, i32),
    press_sample: i64,
) -> (r: Result<ClickPlan, AppError>)
    ensures
        !can_plan(config, screen_width, screen_height) ==> r.is_err() && *final(current_index)
            == *old(current_index),
        can_plan(config, screen_width, screen_height) ==> *final(current_index) == (if uses_primary(
            config,
        ) {
            *old(current_index) as int
        } else {
            cursor_next(config, *old(current_index) as int)
        }),
        match r {
            Ok(plan) => is_plan(config, screen_width, screen_height, pointer, press_sample, plan),
            Err(e) => e == AppError::ConfigInputError && (!can_plan(
                config,
                screen_width,
                screen_height,
            ) || exists|area: ClickArea|
                {
                    &&& #[trigger] area_is_choice(config, area)
                    &&& !area_clickable(screen_width as int, screen_height as int, area)
                }),
        },
{
    if screen_width < 1 || screen_height < 1 || !config.click_timing.is_valid() {
        return Err(AppError::ConfigInputError);
    }
    let point = match choose_click_point(config, current_index, rng, screen_width, screen_height) {
        Some(p) => p,
        None => {
            return Err(AppError::ConfigInputError);
        },
    };
    let path = movement_path(pointer, point, screen_width, screen_height);
    let kind = get_click_type(rng, config);
    assert(click_type_possible(config, kind));
    let duration = next_click_duration(press_sample);
    let steps = click_sequence(kind, duration, config.click_timing.double_click_gap);
    let delay = next_delay(config.click_timing.min_delay, config.click_timing.max_delay, rng);
    Ok(ClickPlan { point, path, steps, delay })
}

} // verus!
