use mouse_clicker::config::{
    AreaSelectionMode, ClickArea, ClickOptions, ClickTiming, ClickType, Config, MultiAreaConfig,
    WEIGHT_ONE,
};

fn area(width: i32, height: i32, x: i32, y: i32) -> ClickArea {
    ClickArea { width, height, centered: false, x_offset: x, y_offset: y }
}

#[test]
fn click_type_default_is_single() {
    assert_eq!(ClickType::default(), ClickType::Single);
}

#[test]
fn click_area_default_is_centered_square() {
    let a = ClickArea::default();
    assert_eq!(a, ClickArea { width: 200, height: 200, centered: true, x_offset: 0, y_offset: 0 });
    assert!(a.is_valid());
}

#[test]
fn click_area_validity() {
    assert!(area(1, 1, -5, -5).is_valid());
    assert!(!area(0, 10, 0, 0).is_valid());
    assert!(!area(10, 0, 0, 0).is_valid());
    assert!(!area(-3, 10, 0, 0).is_valid());
}

#[test]
fn click_timing_default_values() {
    let t = ClickTiming::default();
    assert_eq!(t.min_delay, 12_000);
    assert_eq!(t.max_delay, 38_000);
    assert_eq!(t.click_duration_mean, 80);
    assert_eq!(t.click_duration_std_dev, 20);
    assert_eq!(t.double_click_gap, 200);
    assert!(t.is_valid());
}

#[test]
fn raising_min_delay_above_max_raises_max() {
    let mut t = ClickTiming::default();
    t.set_min_delay(50_000);
    assert_eq!(t.min_delay, 50_000);
    assert_eq!(t.max_delay, 50_000);
    assert!(t.is_valid());
}

#[test]
fn raising_min_delay_below_max_keeps_max() {
    let mut t = ClickTiming::default();
    t.set_min_delay(20_000);
    assert_eq!(t.min_delay, 20_000);
    assert_eq!(t.max_delay, 38_000);
    assert_eq!(t.double_click_gap, 200);
}

#[test]
fn max_delay_never_falls_below_min() {
    let mut t = ClickTiming::default();
    t.set_max_delay(5_000);
    assert_eq!(t.min_delay, 12_000);
    assert_eq!(t.max_delay, 12_000);
    t.set_max_delay(60_000);
    assert_eq!(t.max_delay, 60_000);
    assert!(t.is_valid());
}

#[test]
fn click_options_default_weights() {
    let o = ClickOptions::default();
    assert_eq!(o.click_type, ClickType::Single);
    assert!(!o.randomize_click_type);
    assert_eq!(
        o.click_type_weights,
        vec![
            (ClickType::Single, 700_000),
            (ClickType::Double, 100_000),
            (ClickType::Right, 100_000),
            (ClickType::Middle, 100_000),
        ]
    );
    let total: u64 = o.click_type_weights.iter().map(|p| p.1 as u64).sum();
    assert_eq!(total, WEIGHT_ONE as u64);
}

#[test]
fn area_selection_mode_default_is_sequential() {
    assert_eq!(AreaSelectionMode::default(), AreaSelectionMode::Sequential);
}

#[test]
fn multi_area_default_is_off_and_empty() {
    let m = MultiAreaConfig::default();
    assert!(m.areas.is_empty());
    assert!(!m.enabled);
    assert_eq!(m.selection_mode, AreaSelectionMode::Sequential);
}

#[test]
fn config_default_and_new() {
    let d = Config::default();
    assert_eq!(d.profile_name, "Default");
    assert_eq!(d.click_area, ClickArea::default());
    assert_eq!(d.click_timing, ClickTiming::default());
    assert!(!d.multi_area.enabled);
    let c = Config::new("night shift");
    assert_eq!(c.profile_name, "night shift");
    assert_eq!(c.click_area, ClickArea::default());
    assert_eq!(c.click_timing, ClickTiming::default());
    assert_eq!(c.click_options.click_type_weights.len(), 4);
    assert!(c.multi_area.areas.is_empty());
}

#[test]
fn adding_first_area_enables_multi_area() {
    let mut c = Config::new("p");
    assert!(!c.multi_area.enabled);
    c.add_click_area(area(10, 20, 1, 2), 500_000);
    assert!(c.multi_area.enabled);
    assert_eq!(c.multi_area.areas, vec![(area(10, 20, 1, 2), 500_000)]);
    c.add_click_area(area(30, 40, 3, 4), 250_000);
    assert_eq!(
        c.multi_area.areas,
        vec![(area(10, 20, 1, 2), 500_000), (area(30, 40, 3, 4), 250_000)]
    );
    assert_eq!(c.profile_name, "p");
}

#[test]
fn removing_last_area_disables_multi_area() {
    let mut c = Config::new("p");
    c.add_click_area(area(10, 20, 1, 2), 1);
    c.add_click_area(area(30, 40, 3, 4), 2);
    assert!(c.remove_click_area(0));
    assert!(c.multi_area.enabled);
    assert_eq!(c.multi_area.areas, vec![(area(30, 40, 3, 4), 2)]);
    assert!(c.remove_click_area(0));
    assert!(!c.multi_area.enabled);
    assert!(c.multi_area.areas.is_empty());
}

#[test]
fn removing_out_of_range_changes_nothing() {
    let mut c = Config::new("p");
    c.add_click_area(area(10, 20, 1, 2), 1);
    assert!(!c.remove_click_area(1));
    assert!(!c.remove_click_area(usize::MAX));
    assert!(c.multi_area.enabled);
    assert_eq!(c.multi_area.areas.len(), 1);
    let mut empty = Config::new("q");
    assert!(!empty.remove_click_area(0));
    assert!(!empty.multi_area.enabled);
}

#[test]
fn clearing_areas_disables_multi_area() {
    let mut c = Config::new("p");
    c.add_click_area(area(10, 20, 1, 2), 1);
    c.add_click_area(area(30, 40, 3, 4), 2);
    c.clear_click_areas();
    assert!(c.multi_area.areas.is_empty());
    assert!(!c.multi_area.enabled);
    assert_eq!(c.click_area, ClickArea::default());
}

#[test]
fn invalid_areas_and_weights_are_turned_away() {
    let mut c = Config::new("p");
    c.add_click_area(area(10, 20, 1, 2), 0);
    c.add_click_area(area(0, 20, 1, 2), 5);
    c.add_click_area(area(10, 0, 1, 2), 5);
    c.add_click_area(area(-1, -1, 1, 2), 5);
    assert!(c.multi_area.areas.is_empty());
    assert!(!c.multi_area.enabled);
    c.add_click_area(area(10, 20, 1, 2), 1);
    assert!(c.multi_area.enabled);
    c.add_click_area(area(10, 20, 1, 2), 0);
    c.add_click_area(area(10, -20, 1, 2), 7);
    assert_eq!(c.multi_area.areas, vec![(area(10, 20, 1, 2), 1)]);
    assert!(c.multi_area.enabled);
    c.multi_area.enabled = false;
    c.add_click_area(area(0, 0, 0, 0), 3);
    assert!(!c.multi_area.enabled);
    c.add_click_area(area(1, 1, -5, -5), u32::MAX);
    assert!(c.multi_area.enabled);
    assert_eq!(c.multi_area.areas.len(), 2);
    assert_eq!(c.profile_name, "p");
}
