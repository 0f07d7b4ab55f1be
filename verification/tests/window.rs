use antigravity_pulse::window::{FlyoutFrame, WindowAction, WindowManager};

fn frame() -> FlyoutFrame {
    FlyoutFrame {
        width: 360,
        height: 500,
        monitor_x: 0,
        monitor_y: 0,
        monitor_width: 1920,
        monitor_height: 1080,
        margin: 8,
        top_offset: 24,
    }
}

#[test]
fn bottom_right_tray_is_clamped_to_the_right_edge() {
    let wm = WindowManager::default();
    assert_eq!(wm.calculate_position(&frame(), (1800, 1060)), (1552, 552));
}

#[test]
fn centred_above_tray_in_the_middle() {
    let wm = WindowManager::default();
    assert_eq!(wm.calculate_position(&frame(), (960, 1060)), (780, 552));
}

#[test]
fn top_left_tray_opens_below() {
    let wm = WindowManager::default();
    assert_eq!(wm.calculate_position(&frame(), (100, 10)), (8, 34));
}

#[test]
fn second_monitor_and_scaling() {
    let wm = WindowManager::default();
    let f = FlyoutFrame {
        width: 540,
        height: 750,
        monitor_x: 1920,
        monitor_y: -200,
        monitor_width: 2560,
        monitor_height: 1440,
        margin: 12,
        top_offset: 36,
    };
    // x: 1950 - 270 = 1680 < 1920 -> 1932; y: 1200 >= -200 + 288 -> 1200 - 750 - 12.
    assert_eq!(wm.calculate_position(&f, (1950, 1200)), (1932, 438));
    // top fifth ends at -200 + 288 = 88.
    assert_eq!(wm.calculate_position(&f, (3000, 50)), (2730, 86));
}

#[test]
fn odd_and_negative_widths_divide_toward_zero() {
    let wm = WindowManager::default();
    let mut f = frame();
    f.width = 361;
    assert_eq!(wm.calculate_position(&f, (960, 1060)).0, 780);
    f.width = -3;
    f.monitor_x = -10_000;
    f.monitor_width = 20_000;
    assert_eq!(wm.calculate_position(&f, (960, 1060)).0, 961);
}

#[test]
fn checked_position_reports_overflow() {
    let wm = WindowManager::default();
    assert_eq!(wm.checked_position(&frame(), (1800, 1060)), Some((1552, 552)));
    assert_eq!(wm.checked_position(&frame(), (i32::MIN, 1060)), None);
    let mut f = frame();
    f.monitor_x = i32::MAX - 10;
    assert_eq!(wm.checked_position(&f, (0, 1060)), None);
}

#[test]
fn toggle_hides_visible_and_shows_hidden() {
    let mut wm = WindowManager::default();
    assert_eq!(wm.toggle(true, Some(frame()), (1800, 1060)), WindowAction::Hide);
    assert_eq!(wm.toggle(true, None, (1800, 1060)), WindowAction::Hide);
    assert_eq!(wm.toggle(false, Some(frame()), (1800, 1060)), WindowAction::Show { x: 1552, y: 552 });
    assert_eq!(wm.hide_flyout(), WindowAction::Hide);
}

#[test]
fn narrow_flyout_stays_on_monitor() {
    let wm = WindowManager::default();
    let f = frame();
    for tx in [-5000, -1, 0, 5, 179, 180, 960, 1740, 1741, 1919, 1920, 5000] {
        let (x, _) = wm.calculate_position(&f, (tx, 1060));
        assert!(x >= f.monitor_x && x + f.width <= f.monitor_x + f.monitor_width);
    }
}

#[test]
fn two_toggles_restore_visibility() {
    let mut wm = WindowManager::default();
    let mut visible = false;
    for pos in [(1800, 1060), (100, 10)] {
        let frame = if visible { None } else { Some(frame()) };
        visible = match wm.toggle(visible, frame, pos) {
            WindowAction::Hide => false,
            WindowAction::Show { .. } => true,
        };
        assert!(visible == (pos == (1800, 1060)));
    }
    assert!(!visible);
}
