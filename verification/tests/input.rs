use apex_road::input::{
    digital_controls, DigitalControl, FrameKeys, Interface, KeyState, Response, WindowFocus,
};
use apex_road::test_support::TempDir;

#[test]
fn focus_loss_is_latched_until_handled() {
    let mut focus = WindowFocus::new();
    focus.window_minimized_event();
    assert!(!focus.focused);
    focus.window_restored_event();
    assert!(focus.focused && focus.take_loss());
    assert!(!focus.take_loss());
}

fn keys() -> KeyState {
    KeyState { w: false, up: false, s: false, down: false, d: false, right: false, a: false, left: false, space: false }
}

#[test]
fn arrow_and_letter_keys_drive_in_their_direction() {
    assert_eq!(digital_controls(KeyState { right: true, ..keys() }).steer, 1);
    assert_eq!(digital_controls(KeyState { d: true, ..keys() }).steer, 1);
    assert_eq!(digital_controls(KeyState { left: true, ..keys() }).steer, -1);
    assert_eq!(digital_controls(KeyState { a: true, ..keys() }).steer, -1);
    assert_eq!(digital_controls(KeyState { a: true, d: true, ..keys() }).steer, 0);
    assert_eq!(
        digital_controls(KeyState { up: true, s: true, space: true, ..keys() }),
        DigitalControl { throttle: true, brake: true, steer: 0, handbrake: true }
    );
}

fn frame() -> FrameKeys {
    FrameKeys { quit_requested: false, fullscreen: false, help: false, escape: false, quit: false, start: false }
}

#[test]
fn escape_closes_the_guide_before_pausing() {
    let mut ui = Interface::new();
    ui.respond(FrameKeys { help: true, ..frame() });
    assert!(ui.help && !ui.paused);
    ui.respond(FrameKeys { escape: true, ..frame() });
    assert!(!ui.help && !ui.paused);
    ui.respond(FrameKeys { escape: true, ..frame() });
    assert!(ui.paused);
    assert!(!ui.simulating(true, false));
}

#[test]
fn quit_only_while_paused_and_start_clears_overlays() {
    let mut ui = Interface::new();
    assert!(!ui.respond(FrameKeys { quit: true, ..frame() }).quit);
    ui.respond(FrameKeys { escape: true, ..frame() });
    assert!(ui.respond(FrameKeys { quit: true, ..frame() }).quit);
    let mut ui = Interface { paused: true, help: true, fullscreen: false };
    let response = ui.respond(FrameKeys { start: true, fullscreen: true, ..frame() });
    assert_eq!(response, Response { quit: false, fullscreen_changed: true, start: true });
    assert_eq!(ui, Interface { paused: false, help: false, fullscreen: true });
    assert!(ui.simulating(true, false));
    assert!(!ui.simulating(true, true));
    assert!(Interface::new().respond(FrameKeys { quit_requested: true, ..frame() }).quit);
    let mut ui = Interface { paused: true, help: false, fullscreen: false };
    ui.track_loaded();
    assert!(!ui.paused);
}

#[test]
fn fixture_names_and_paths() {
    assert_eq!(TempDir::fixture_name("fixture", 41, 2), "fixture-41-2");
    let dir = TempDir::claimed("/tmp/apex-1-0".to_string());
    assert_eq!(dir.path(), "/tmp/apex-1-0");
}
