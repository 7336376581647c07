//! Configuration records of the clicker and the rules that keep them valid.

use vstd::prelude::*;

verus! {

/// One weight unit: weights are stored in millionths, so this is weight 1.0.
pub const WEIGHT_ONE: u32 = 1_000_000;

/// The kind of click the engine performs.
#[derive(Debug, Clone, Copy, PartialEq, Eq, Structural)]
pub enum ClickType {
    Single,
    Double,
    Right,
    Middle,
}

impl Default for ClickType {
    fn default() -> (r: Self)
        ensures
            r == ClickType::Single,
    {
        ClickType::Single
    }
}

/// A rectangle of the screen inside which click points are drawn.
///
/// When `centered` is set the rectangle is placed in the middle of the screen
/// and the offsets are ignored; otherwise the offsets are the screen
/// coordinates of its top-left corner.
#[derive(Debug, Clone, Copy, PartialEq, Eq, Structural)]
pub struct ClickArea {
    pub width: i32,
    pub height: i32,
    pub centered: bool,
    pub x_offset: i32,
    pub y_offset: i32,
}

impl ClickArea {
    /// Width and height are positive.
    pub open spec fn wf(&self) -> bool {
        self.width > 0 && self.height > 0
    }

    /// Tells whether width and height are positive.
    pub fn is_valid(&self) -> (r: bool)
        ensures
            r == self.wf(),
    {
        self.width > 0 && self.height > 0
    }
}

impl Default for ClickArea {
    fn default() -> (r: Self)
        ensures
            r == (ClickArea { width: 200, height: 200, centered: true, x_offset: 0, y_offset: 0 }),
            r.wf(),
    {
        ClickArea { width: 200, height: 200, centered: true, x_offset: 0, y_offset: 0 }
    }
}

/// Timing of the click loop. All fields are whole milliseconds.
#[derive(Debug, Clone, Copy, PartialEq, Eq, Structural)]
pub struct ClickTiming {
    /// Shortest pause between two clicks.
    pub min_delay: u64,
    /// Longest pause between two clicks; never below `min_delay`.
    pub max_delay: u64,
    /// Mean of the distribution from which the press time is drawn.
    pub click_duration_mean: u64,
    /// Standard deviation of that distribution.
    pub click_duration_std_dev: u64,
    /// Pause between the two presses of a double click.
    pub double_click_gap: u64,
}

impl ClickTiming {
    /// The delay bounds are ordered.
    pub open spec fn wf(&self) -> bool {
        self.min_delay <= self.max_delay
    }

    /// Tells whether the delay bounds are ordered.
    pub fn is_valid(&self) -> (r: bool)
        ensures
            r == self.wf(),
    {
        self.min_delay <= self.max_delay
    }

    /// Sets the lower delay bound. If the new bound lies above the upper one,
    /// the upper bound is raised to it.
    pub fn set_min_delay(&mut self, min_delay: u64)
        ensures
            final(self).min_delay == min_delay,
            final(self).max_delay == if min_delay > old(self).max_delay {
                min_delay
            } else {
                old(self).max_delay
            },
            final(self).wf(),
            final(self).click_duration_mean == old(self).click_duration_mean,
            final(self).click_duration_std_dev == old(self).click_duration_std_dev,
            final(self).double_click_gap == old(self).double_click_gap,
    {
        self.min_delay = min_delay;
        if self.min_delay > self.max_delay {
            self.max_delay = self.min_delay;
        }
    }

    /// Sets the upper delay bound, but never below the lower one.
    pub fn set_max_delay(&mut self, max_delay: u64)
        ensures
            final(self).min_delay == old(self).min_delay,
            final(self).max_delay == if max_delay < old(self).min_delay {
                old(self).min_delay
            } else {
                max_delay
            },
            final(self).wf(),
            final(self).click_duration_mean == old(self).click_duration_mean,
            final(self).click_duration_std_dev == old(self).click_duration_std_dev,
            final(self).double_click_gap == old(self).double_click_gap,
    {
        if max_delay < self.min_delay {
            self.max_delay = self.min_delay;
        } else {
            self.max_delay = max_delay;
        }
    }
}

impl Default for ClickTiming {
    fn default() -> (r: Self)
        ensures
            r == (ClickTiming {
                min_delay: 12_000,
                max_delay: 38_000,
                click_duration_mean: 80,
                click_duration_std_dev: 20,
                double_click_gap: 200,
            }),
            r.wf(),
    {
        ClickTiming {
            min_delay: 12_000,
            max_delay: 38_000,
            click_duration_mean: 80,
            click_duration_std_dev: 20,
            double_click_gap: 200,
        }
    }
}

/// Which click to perform: a fixed kind, or one drawn by weight.
#[derive(Debug, Clone)]
pub struct ClickOptions {
    pub click_type: ClickType,
    pub randomize_click_type: bool,
    /// Each kind with its weight in millionths.
    pub click_type_weights: Vec<(ClickType, u32)>,
}

impl Default for ClickOptions {
    fn default() -> (r: Self)
        ensures
            r.click_type == ClickType::Single,
            !r.randomize_click_type,
            r.click_type_weights@ == seq![
                (ClickType::Single, 700_000u32),
                (ClickType::Double, 100_000u32),
                (ClickType::Right, 100_000u32),
                (ClickType::Middle, 100_000u32),
            ],
    {
        ClickOptions {
            click_type: ClickType::Single,
            randomize_click_type: false,
            click_type_weights: vec![
                (ClickType::Single, 700_000u32),
                (ClickType::Double, 100_000u32),
                (ClickType::Right, 100_000u32),
                (ClickType::Middle, 100_000u32),
            ],
        }
    }
}

/// How the next area is chosen when several are configured.
#[derive(Debug, Clone, Copy, PartialEq, Eq, Structural)]
pub enum AreaSelectionMode {
    /// Go through the areas in order.
    Sequential,
    /// Pick any area with equal chance.
    Random,
    /// Pick an area with a chance proportional to its weight.
    Weighted,
}

impl Default for AreaSelectionMode {
    fn default() -> (r: Self)
        ensures
            r == AreaSelectionMode::Sequential,
    {
        AreaSelectionMode::Sequential
    }
}

/// Several click areas, each with its weight in millionths.
#[derive(Debug, Clone)]
pub struct MultiAreaConfig {
    pub areas: Vec<(ClickArea, u32)>,
    pub selection_mode: AreaSelectionMode,
    pub enabled: bool,
}

impl MultiAreaConfig {
    /// Multi-area mode is only on while there is an area to choose.
    pub open spec fn wf(&self) -> bool {
        self.enabled ==> self.areas@.len() > 0
    }

    /// Every area has positive width and height and a positive weight.
    pub open spec fn areas_valid(&self) -> bool {
        forall|i: int|
            0 <= i < self.areas@.len() ==> (#[trigger] self.areas@[i]).0.wf() && self.areas@[i].1
                > 0
    }
}

impl Default for MultiAreaConfig {
    fn default() -> (r: Self)
        ensures
            r.areas@ == Seq::<(ClickArea, u32)>::empty(),
            r.selection_mode == AreaSelectionMode::Sequential,
            !r.enabled,
            r.wf(),
            r.areas_valid(),
    {
        MultiAreaConfig {
            areas: Vec::new(),
            selection_mode: AreaSelectionMode::Sequential,
            enabled: false,
        }
    }
}

/// A named profile: everything the click loop reads.
#[derive(Debug, Clone)]
pub struct Config {
    pub profile_name: String,
    /// The area used while multi-area mode is off.
    pub click_area: ClickArea,
    pub click_timing: ClickTiming,
    pub click_options: ClickOptions,
    pub multi_area: MultiAreaConfig,
}

impl Default for Config {
    fn default() -> (r: Self)
        ensures
            r.profile_name@ == "Default"@,
            r.is_default_but_name(),
    {
        Config {
            profile_name: "Default".to_owned(),
            click_area: ClickArea::default(),
            click_timing: ClickTiming::default(),
            click_options: ClickOptions::default(),
            multi_area: MultiAreaConfig::default(),
        }
    }
}

impl Config {
    /// Every part of the configuration is valid.
    pub open spec fn wf(&self) -> bool {
        &&& self.click_area.wf()
        &&& self.click_timing.wf()
        &&& self.multi_area.wf()
        &&& self.multi_area.areas_valid()
    }

    /// All fields but the name hold their default values.
    pub open spec fn is_default_but_name(&self) -> bool {
        &&& self.click_area == (ClickArea {
            width: 200,
            height: 200,
            centered: true,
            x_offset: 0,
            y_offset: 0,
        })
        &&& self.click_timing == (ClickTiming {
            min_delay: 12_000,
            max_delay: 38_000,
            click_duration_mean: 80,
            click_duration_std_dev: 20,
            double_click_gap: 200,
        })
        &&& self.click_options.click_type == ClickType::Single
        &&& !self.click_options.randomize_click_type
        &&& self.click_options.click_type_weights@ == seq![
            (ClickType::Single, 700_000u32),
            (ClickType::Double, 100_000u32),
            (ClickType::Right, 100_000u32),
            (ClickType::Middle, 100_000u32),
        ]
        &&& self.multi_area.areas@ == Seq::<(ClickArea, u32)>::empty()
        &&& self.multi_area.selection_mode == AreaSelectionMode::Sequential
        &&& !self.multi_area.enabled
    }

    /// Nothing but the multi-area part differs between `self` and `other`.
    pub open spec fn same_but_multi_area(&self, other: &Config) -> bool {
        &&& self.profile_name == other.profile_name
        &&& self.click_area == other.click_area
        &&& self.click_timing == other.click_timing
        &&& self.click_options == other.click_options
        &&& self.multi_area.selection_mode == other.multi_area.selection_mode
    }

    /// A default configuration under the given profile name.
    pub fn new(profile_name: &str) -> (r: Self)
        ensures
            r.profile_name@ == profile_name@,
            r.is_default_but_name(),
            r.wf(),
    {
        Config {
            profile_name: profile_name.to_owned(),
            click_area: ClickArea::default(),
            click_timing: ClickTiming::default(),
            click_options: ClickOptions::default(),
            multi_area: MultiAreaConfig::default(),
        }
    }

    /// An area with its weight may be stored: the area has a positive width
    /// and height and the weight is above zero.
    pub open spec fn accepts(area: ClickArea, weight: u32) -> bool {
        area.wf() && weight > 0
    }

    /// Appends an area with its weight and switches multi-area mode on. An
    /// area without a positive width and height, and a weight of zero, are
    /// turned away: nothing is stored and nothing changes.
    pub fn add_click_area(&mut self, area: ClickArea, weight: u32)
        ensures
            Self::accepts(area, weight) ==> final(self).multi_area.areas@ == old(
                self,
            ).multi_area.areas@.push((area, weight)) && final(self).multi_area.enabled,
            !Self::accepts(area, weight) ==> final(self).multi_area.areas@ == old(
                self,
            ).multi_area.areas@ && final(self).multi_area.enabled == old(self).multi_area.enabled,
            final(self).same_but_multi_area(old(self)),
            old(self).multi_area.wf() ==> final(self).multi_area.wf(),
            old(self).multi_area.areas_valid() ==> final(self).multi_area.areas_valid(),
    {
        if area.is_valid() && weight > 0 {
            self.multi_area.areas.push((area, weight));
            self.multi_area.enabled = true;
        }
    }

    /// Removes the area at `index`, if there is one, and says whether it did.
    /// Removing the last area switches multi-area mode off.
    pub fn remove_click_area(&mut self, index: usize) -> (removed: bool)
        ensures
            removed == (index < old(self).multi_area.areas@.len()),
            removed ==> final(self).multi_area.areas@ == old(self).multi_area.areas@.remove(
                index as int,
            ),
            removed ==> final(self).multi_area.enabled == (old(self).multi_area.enabled
                && old(self).multi_area.areas@.len() > 1),
            !removed ==> final(self).multi_area.areas@ == old(self).multi_area.areas@,
            !removed ==> final(self).multi_area.enabled == old(self).multi_area.enabled,
            final(self).same_but_multi_area(old(self)),
            old(self).multi_area.wf() ==> final(self).multi_area.wf(),
            old(self).multi_area.areas_valid() ==> final(self).multi_area.areas_valid(),
    {
        if index < self.multi_area.areas.len() {
            self.multi_area.areas.remove(index);
            if self.multi_area.areas.len() == 0 {
                self.multi_area.enabled = false;
            }
            true
        } else {
            false
        }
    }

    /// Removes every area and switches multi-area mode off.
    pub fn clear_click_areas(&mut self)
        ensures
            final(self).multi_area.areas@ == Seq::<(ClickArea, u32)>::empty(),
            !final(self).multi_area.enabled,
            final(self).multi_area.wf(),
            final(self).multi_area.areas_valid(),
            final(self).same_but_multi_area(old(self)),
    {
        self.multi_area.areas.clear();
        self.multi_area.enabled = false;
    }
}

} // verus!
