use apex_road::input::WindowFocus;
use apex_road::session::DrivingMode;

#[test]
fn launch_modes() {
    let m = DrivingMode::launch(false, false, false);
    assert!(!m.autodrive && !m.demo && !m.mouse && m.records);
    let m = DrivingMode::launch(true, false, false);
    assert!(m.autodrive && !m.records);
    let m = DrivingMode::launch(false, true, false);
    assert!(m.autodrive && m.demo && !m.records);
    let m = DrivingMode::launch(false, false, true);
    assert!(!m.autodrive && !m.records);
}

#[test]
fn auto_driver_never_saves_until_control_is_taken() {
    let mut m = DrivingMode::launch(true, true, false);
    for _ in 0..3 {
        m.restart();
        assert!(m.autodrive && m.demo && !m.records);
    }
    m.take_control();
    assert!(!m.autodrive && !m.demo && m.mouse);
    assert!(!m.records, "the run in progress stays ineligible");
    m.restart();
    assert!(m.records);
    m.take_control();
    assert!(!m.mouse && !m.autodrive && m.records);
}

#[test]
fn restarting_a_preview_restores_record_saving() {
    let mut m = DrivingMode::launch(false, false, true);
    assert!(!m.records);
    m.restart();
    assert!(m.records);
}

#[test]
fn demo_moves_on_only_after_a_completed_run() {
    let mut m = DrivingMode::launch(false, true, false);
    assert!(m.next_course_due(true));
    assert!(!m.next_course_due(false));
    m.take_control();
    assert!(!m.next_course_due(true));
    assert!(!DrivingMode::launch(true, false, false).next_course_due(true));
}

#[test]
fn mouse_drives_only_when_selected_running_and_focused() {
    let mut m = DrivingMode::launch(false, false, false);
    assert!(!m.mouse_active(true, true));
    m.take_control();
    assert!(m.mouse_active(true, true));
    assert!(!m.mouse_active(false, true));
    assert!(!m.mouse_active(true, false));
    let mut focus = WindowFocus::new();
    focus.window_minimized_event();
    assert!(!m.mouse_active(true, focus.focused));
    focus.window_restored_event();
    assert!(focus.focused && focus.lost);
    assert!(focus.take_loss());
    assert!(!focus.lost);
}
