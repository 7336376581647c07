use mouse_clicker::animations::Animation;
use mouse_clicker::status::{AppView, ClickerStatus, StatusMessageType};

#[test]
fn animation_runs_for_its_duration() {
    let a = Animation::new(1_000, 300);
    assert!(!a.is_completed(1_000));
    assert!(!a.is_completed(1_299));
    assert!(a.is_completed(1_300));
    assert!(a.is_completed(5_000));
    assert!(!a.is_completed(0));
}

#[test]
fn animation_progress_in_thousandths() {
    let a = Animation::new(1_000, 300);
    assert_eq!(a.progress(1_000), 0);
    assert_eq!(a.progress(1_150), 500);
    assert_eq!(a.progress(1_100), 333);
    assert_eq!(a.progress(1_299), 996);
    assert_eq!(a.progress(1_300), 1000);
    assert_eq!(a.progress(9_999), 1000);
    assert_eq!(a.progress(10), 0);
}

#[test]
fn animation_complete_and_reset() {
    let mut a = Animation::new(0, 1_000);
    assert!(!a.is_completed(10));
    a.complete();
    assert!(a.is_completed(10));
    assert_eq!(a.progress(10), 1000);
    a.reset(500);
    assert_eq!(a, Animation { start_time: 500, duration: 1_000, completed: false });
    assert!(!a.is_completed(1_499));
    assert!(a.is_completed(1_500));
}

#[test]
fn animation_of_no_duration_is_over_at_once() {
    let a = Animation::new(700, 0);
    assert!(a.is_completed(700));
    assert!(a.is_completed(0));
    assert_eq!(a.progress(0), 1000);
}

#[test]
fn status_enums_compare() {
    assert_ne!(AppView::Profiles, AppView::Areas);
    assert_eq!(AppView::Images, AppView::Images);
    assert_ne!(ClickerStatus::Running, ClickerStatus::Paused);
    assert_eq!(ClickerStatus::Stopped, ClickerStatus::Stopped);
    assert_ne!(StatusMessageType::Info, StatusMessageType::Error);
    assert_eq!(StatusMessageType::Warning, StatusMessageType::Warning);
}
