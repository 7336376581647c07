use mouse_clicker::pick::{sum_weights, weighted_pick};

#[test]
fn sum_of_weights() {
    let empty: Vec<(u8, u32)> = Vec::new();
    assert_eq!(sum_weights(&empty), 0);
    assert_eq!(sum_weights(&vec![('a', 3), ('b', 0), ('c', 4)]), 7);
    assert_eq!(sum_weights(&vec![(0u8, u32::MAX), (1u8, u32::MAX)]), 2 * (u32::MAX as u128));
}

#[test]
fn walk_picks_first_entry_the_draw_hits() {
    let entries = vec![('a', 3), ('b', 0), ('c', 4)];
    assert_eq!(weighted_pick(&entries, 0), Some(0));
    assert_eq!(weighted_pick(&entries, 3), Some(0));
    assert_eq!(weighted_pick(&entries, 4), Some(2));
    assert_eq!(weighted_pick(&entries, 6), Some(2));
    assert_eq!(weighted_pick(&entries, 7), Some(2));
    assert_eq!(weighted_pick(&entries, 8), None);
}

#[test]
fn walk_on_empty_list_picks_nothing() {
    let empty: Vec<(u8, u32)> = Vec::new();
    assert_eq!(weighted_pick(&empty, 0), None);
    assert_eq!(weighted_pick(&empty, 5), None);
}

#[test]
fn draw_below_total_always_picks() {
    let entries = vec![(0u8, 5), (1u8, 1), (2u8, 0), (3u8, 9)];
    let total = sum_weights(&entries);
    assert_eq!(total, 15);
    for draw in 0..total {
        assert!(weighted_pick(&entries, draw).is_some());
    }
}
