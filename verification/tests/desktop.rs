use english_input_assistant::desktop::{
    capture_source, check_focus, confirm_cleared, focus_attempt_delay, key_action_result,
    monitor_at, popup_position, require_focus_restored, require_source, MonitorArea,
};

fn monitors() -> Vec<MonitorArea> {
    vec![
        MonitorArea { x: 0, y: 0, width: 1920, height: 1080 },
        MonitorArea { x: 1920, y: 0, width: 1280, height: 1024 },
    ]
}

#[test]
fn monitor_is_found_by_cursor() {
    let monitors = monitors();
    assert_eq!(monitor_at(&monitors, 10, 10), Some(0));
    assert_eq!(monitor_at(&monitors, 1920, 500), Some(1));
    assert_eq!(monitor_at(&monitors, 1919, 1079), Some(0));
    assert_eq!(monitor_at(&monitors, 1919, 1080), None);
    assert_eq!(monitor_at(&monitors, -1, 5), None);
}

#[test]
fn popup_opens_below_right_and_flips_at_edges() {
    let monitors = monitors();
    let m = &monitors[0];
    assert_eq!(popup_position(100, 100, Some(m), 520, 300), Some((100, 120)));
    assert_eq!(popup_position(1800, 100, Some(m), 520, 300), Some((1280, 120)));
    assert_eq!(popup_position(100, 1000, Some(m), 520, 300), Some((100, 700)));
    assert_eq!(popup_position(100, 100, Some(m), 2000, 2000), Some((0, 0)));
    assert_eq!(popup_position(50, 60, None, 520, 300), Some((50, 80)));
    assert_eq!(popup_position(100, 100, Some(m), -50, 300), Some((100, 120)));
    assert_eq!(popup_position(50, i32::MAX, None, 520, 300), None);
    assert_eq!(popup_position(i32::MAX, 100, Some(m), -1, 300), None);
}

#[test]
fn focus_is_tried_three_times_at_most() {
    assert_eq!(focus_attempt_delay(0, 0), None);
    assert_eq!(focus_attempt_delay(42, 0), Some(150));
    assert_eq!(focus_attempt_delay(42, 1), Some(100));
    assert_eq!(focus_attempt_delay(42, 2), Some(100));
    assert_eq!(focus_attempt_delay(42, 3), None);
}

#[test]
fn keys_are_sent_only_to_the_focused_source() {
    assert!(check_focus(7, 7).is_ok());
    assert_eq!(check_focus(7, 8).unwrap_err(), "元のウィンドウのフォーカスが変わりました。");
    assert!(check_focus(0, 0).is_err());
    assert!(require_focus_restored(true).is_ok());
    assert_eq!(require_focus_restored(false).unwrap_err(), "元のウィンドウにフォーカスを戻せませんでした。");
    assert_eq!(require_source(Some(9)).unwrap(), 9);
    assert_eq!(require_source(None).unwrap_err(), "元のウィンドウを確認できませんでした。");
}

#[test]
fn own_windows_are_never_captured() {
    let own = vec![11, 12];
    assert_eq!(capture_source(0, &own), None);
    assert_eq!(capture_source(12, &own), None);
    assert_eq!(capture_source(13, &own), Some(13));
}

#[test]
fn clipboard_must_read_back_empty() {
    assert!(confirm_cleared(Ok(String::new())).is_ok());
    assert_eq!(confirm_cleared(Ok("old secret".to_string())).unwrap_err(), "クリップボードを初期化できませんでした。");
    assert_eq!(confirm_cleared(Err("locked".to_string())).unwrap_err(), "locked");
}

#[test]
fn key_action_needs_press_and_release() {
    assert!(key_action_result(true, true).is_ok());
    assert_eq!(key_action_result(true, false).unwrap_err(), "キーボード操作に失敗しました。");
    assert!(key_action_result(false, true).is_err());
}
