use mouse_clicker::movement::{
    clamp_to_screen, idle_decision, idle_nudge, movement_path, movement_steps, movement_waypoint, nudge_target,
};

#[test]
fn clamp_brings_onto_screen() {
    assert_eq!(clamp_to_screen(-5, 100), 0);
    assert_eq!(clamp_to_screen(0, 100), 0);
    assert_eq!(clamp_to_screen(57, 100), 57);
    assert_eq!(clamp_to_screen(99, 100), 99);
    assert_eq!(clamp_to_screen(100, 100), 99);
    assert_eq!(clamp_to_screen(i64::MAX, 1), 0);
    assert_eq!(clamp_to_screen(i64::MIN, i32::MAX), 0);
}

#[test]
fn step_count_is_length_over_ten_rounded_up() {
    assert_eq!(movement_steps(0, 0), 0);
    assert_eq!(movement_steps(1, 0), 1);
    assert_eq!(movement_steps(10, 0), 1);
    assert_eq!(movement_steps(0, -10), 1);
    assert_eq!(movement_steps(11, 0), 2);
    assert_eq!(movement_steps(30, 40), 5);
    assert_eq!(movement_steps(-30, 40), 5);
    assert_eq!(movement_steps(30, 41), 6);
    assert_eq!(movement_steps(6, 8), 1);
    assert_eq!(movement_steps(7, 8), 2);
    assert_eq!(movement_steps(1920, 1080), 221);
    assert_eq!(movement_steps(4_294_967_296, 0), 429_496_730);
}

#[test]
fn waypoints_on_a_straight_line() {
    assert_eq!(movement_waypoint(0, 30, 3, 1, 1000), 10);
    assert_eq!(movement_waypoint(0, 30, 3, 2, 1000), 20);
    assert_eq!(movement_waypoint(0, 30, 3, 3, 1000), 30);
    assert_eq!(movement_waypoint(100, -25, 4, 1, 1000), 93);
    assert_eq!(movement_waypoint(100, -25, 4, 3, 1000), 81);
    assert_eq!(movement_waypoint(100, -25, 4, 4, 1000), 75);
    assert_eq!(movement_waypoint(-20, 25, 2, 1, 1000), 0);
    assert_eq!(movement_waypoint(990, 50, 5, 5, 1000), 999);
}

#[test]
fn path_ends_at_target() {
    let p = movement_path((0, 0), (30, 40), 1920, 1080);
    assert_eq!(p, vec![(6, 8), (12, 16), (18, 24), (24, 32), (30, 40)]);
    let q = movement_path((500, 500), (400, 500), 1920, 1080);
    assert_eq!(q.len(), 10);
    assert_eq!(q[0], (490, 500));
    assert_eq!(q[9], (400, 500));
}

#[test]
fn path_of_a_small_move_is_empty() {
    assert!(movement_path((10, 10), (10, 10), 1920, 1080).is_empty());
    assert!(movement_path((10, 10), (11, 9), 1920, 1080).is_empty());
    assert!(movement_path((10, 10), (9, 11), 1920, 1080).is_empty());
    assert_eq!(movement_path((10, 10), (12, 10), 1920, 1080), vec![(12, 10)]);
    assert_eq!(movement_path((10, 10), (10, 8), 1920, 1080), vec![(10, 8)]);
}

#[test]
fn path_target_is_brought_onto_screen() {
    let p = movement_path((100, 100), (5000, -30), 1920, 1080);
    assert_eq!(*p.last().unwrap(), (1919, 0));
    assert!(p.iter().all(|w| 0 <= w.0 && w.0 < 1920 && 0 <= w.1 && w.1 < 1080));
    let q = movement_path((-50, 2000), (10, 10), 1920, 1080);
    assert_eq!(*q.last().unwrap(), (10, 10));
    assert!(q.iter().all(|w| 0 <= w.0 && w.0 < 1920 && 0 <= w.1 && w.1 < 1080));
}

#[test]
fn path_steps_are_at_most_ten_pixels_long() {
    let p = movement_path((0, 0), (1000, 700), 1920, 1080);
    let mut last = (0i32, 0i32);
    for w in &p {
        let dx = (w.0 - last.0) as i64;
        let dy = (w.1 - last.1) as i64;
        assert!(dx * dx + dy * dy <= 121);
        last = *w;
    }
    assert_eq!(last, (1000, 700));
}

#[test]
fn nudge_moves_by_one_pixel_on_screen() {
    assert_eq!(nudge_target((10, 10), 100, 100, 1, -1), Some((11, 9)));
    assert_eq!(nudge_target((10, 10), 100, 100, 0, 0), None);
    assert_eq!(nudge_target((0, 0), 100, 100, -1, -1), None);
    assert_eq!(nudge_target((0, 0), 100, 100, -1, 1), Some((0, 1)));
    assert_eq!(nudge_target((99, 99), 100, 100, 1, 1), None);
    assert_eq!(nudge_target((99, 99), 100, 100, 1, -1), Some((99, 98)));
    assert_eq!(nudge_target((500, -3), 100, 100, 0, 0), Some((99, 0)));
    assert_eq!(nudge_target((i32::MAX, i32::MIN), 10, 10, 1, -1), Some((9, 0)));
}

#[test]
fn idle_nudge_is_rare_and_small() {
    let mut rng = rand::thread_rng();
    let mut moved = 0u32;
    let calls = 200_000;
    for _ in 0..calls {
        if let Some((x, y)) = idle_nudge((50, 50), 100, 100, &mut rng) {
            moved += 1;
            assert!((49..=51).contains(&x) && (49..=51).contains(&y));
            assert!((x, y) != (50, 50));
        }
    }
    assert!(moved > 0);
    assert!(moved < calls / 200);
}

#[test]
fn idle_decision_follows_roll_and_steps() {
    assert_eq!(idle_decision((10, 10), 100, 100, true, 1, -1), Some((11, 9)));
    assert_eq!(idle_decision((10, 10), 100, 100, false, 1, -1), None);
    assert_eq!(idle_decision((10, 10), 100, 100, true, 0, 0), None);
    assert_eq!(idle_decision((0, 0), 1, 1, true, 1, 1), None);
    assert_eq!(idle_decision((99, 0), 100, 100, true, 1, 1), Some((99, 1)));
}

#[test]
fn idle_nudge_on_a_single_pixel_never_moves() {
    let mut rng = rand::thread_rng();
    for _ in 0..20_000 {
        assert_eq!(idle_nudge((0, 0), 1, 1, &mut rng), None);
    }
}
