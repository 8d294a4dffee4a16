use padmap::binds::BindTable;
use padmap::handler::{EventHandler, Settings, PARACHUTE_KEY};
use padmap::types::{
    Bind, ControllerAction, ControllerButton, ControllerReport, Event, KeyState, MouseButton,
    SCAN_A, SCAN_S, SCAN_W,
};

const SCAN_E: u16 = 0x12;

fn handler_with(binds: BindTable) -> EventHandler {
    EventHandler::new(Settings::new(binds, 5))
}

#[test]
fn movement_mapping_all_combinations() {
    for bits in 0u8..16 {
        let w = bits & 1 != 0;
        let a = bits & 2 != 0;
        let s = bits & 4 != 0;
        let d = bits & 8 != 0;
        let mut h = handler_with(BindTable::new());
        h.update_movement(w, a, s, d);
        let expected_y = if w == s {
            0
        } else if w {
            i16::MAX
        } else {
            i16::MIN
        };
        let expected_x = if a == d {
            0
        } else if d {
            i16::MAX
        } else {
            i16::MIN
        };
        let r = h.report();
        assert_eq!(r.s_thumb_ly, expected_y);
        assert_eq!(r.s_thumb_lx, expected_x);
    }
}

#[test]
fn movement_keys_drive_left_stick() {
    let mut h = handler_with(BindTable::new());
    h.handle_event(Event::Keyboard(SCAN_W, KeyState::Down));
    assert_eq!(h.report().s_thumb_ly, i16::MAX);
    assert_eq!(h.report().s_thumb_lx, 0);
    h.handle_event(Event::Keyboard(SCAN_S, KeyState::Down));
    assert_eq!(h.report().s_thumb_ly, 0);
    h.handle_event(Event::Keyboard(SCAN_W, KeyState::Up));
    assert_eq!(h.report().s_thumb_ly, i16::MIN);
}

#[test]
fn button_bind_sets_and_clears_bit() {
    let mut binds = BindTable::new();
    binds.insert(
        Bind::Keyboard(SCAN_E),
        ControllerAction::Button(ControllerButton::A),
    );
    let mut h = handler_with(binds);
    h.handle_event(Event::Keyboard(SCAN_E, KeyState::Down));
    assert_eq!(h.report().w_buttons, 0x1000);
    h.handle_event(Event::Keyboard(SCAN_E, KeyState::Up));
    assert_eq!(h.report().w_buttons, 0);
}

#[test]
fn trigger_bind_sets_trigger_bytes() {
    let mut binds = BindTable::new();
    binds.insert(
        Bind::Keyboard(SCAN_E),
        ControllerAction::Button(ControllerButton::LeftTrigger),
    );
    binds.insert(
        Bind::Mouse(MouseButton::Right),
        ControllerAction::Button(ControllerButton::RightTrigger),
    );
    let mut h = handler_with(binds);
    h.handle_event(Event::Keyboard(SCAN_E, KeyState::Down));
    assert_eq!(h.report().b_left_trigger, u8::MAX);
    h.handle_event(Event::MouseButton(MouseButton::Right, KeyState::Down));
    assert_eq!(h.report().b_right_trigger, u8::MAX);
    h.handle_event(Event::Keyboard(SCAN_E, KeyState::Up));
    assert_eq!(h.report().b_left_trigger, 0);
    h.handle_event(Event::MouseButton(MouseButton::Right, KeyState::Up));
    assert_eq!(h.report().b_right_trigger, 0);
}

#[test]
fn mouse_bind_resolves_and_latches() {
    let mut binds = BindTable::new();
    binds.insert(
        Bind::Mouse(MouseButton::Left),
        ControllerAction::Button(ControllerButton::RightShoulder),
    );
    let mut h = handler_with(binds);
    h.handle_event(Event::MouseButton(MouseButton::Left, KeyState::Down));
    assert_eq!(h.report().w_buttons, 0x0200);
    assert_eq!(h.mouse_buttons(), (KeyState::Down, KeyState::Up));
    h.handle_event(Event::MouseButton(MouseButton::Left, KeyState::Up));
    assert_eq!(h.report().w_buttons, 0);
    assert_eq!(h.mouse_buttons(), (KeyState::Up, KeyState::Up));
}

#[test]
fn analog_bind_has_no_effect() {
    let mut binds = BindTable::new();
    binds.insert(Bind::Keyboard(SCAN_E), ControllerAction::Analog);
    let mut h = handler_with(binds);
    h.handle_event(Event::Keyboard(SCAN_E, KeyState::Down));
    assert_eq!(h.report(), ControllerReport::new());
}

#[test]
fn unbound_key_has_no_effect() {
    let mut h = handler_with(BindTable::new());
    h.handle_event(Event::Keyboard(SCAN_E, KeyState::Down));
    assert_eq!(h.report(), ControllerReport::new());
}

#[test]
fn later_bind_shadows_earlier() {
    let mut binds = BindTable::new();
    binds.insert(
        Bind::Keyboard(SCAN_E),
        ControllerAction::Button(ControllerButton::A),
    );
    binds.insert(
        Bind::Keyboard(SCAN_E),
        ControllerAction::Button(ControllerButton::B),
    );
    let mut h = handler_with(binds);
    h.handle_event(Event::Keyboard(SCAN_E, KeyState::Down));
    assert_eq!(h.report().w_buttons, 0x2000);
}

#[test]
fn parachute_key_toggles_on_press_only() {
    let mut h = handler_with(BindTable::new());
    assert!(!h.parachute_active());
    h.handle_event(Event::Keyboard(PARACHUTE_KEY, KeyState::Down));
    assert!(h.parachute_active());
    h.handle_event(Event::Keyboard(PARACHUTE_KEY, KeyState::Up));
    assert!(h.parachute_active());
    h.handle_event(Event::Keyboard(PARACHUTE_KEY, KeyState::Down));
    assert!(!h.parachute_active());
}

#[test]
fn reset_clears_report_but_keeps_movement_keys() {
    let mut h = handler_with(BindTable::new());
    h.handle_event(Event::Keyboard(SCAN_W, KeyState::Down));
    h.handle_event(Event::MouseButton(MouseButton::Left, KeyState::Down));
    h.handle_event(Event::Reset);
    assert_eq!(h.report(), ControllerReport::new());
    assert_eq!(h.mouse_buttons(), (KeyState::Up, KeyState::Up));
    h.handle_event(Event::Keyboard(SCAN_A, KeyState::Down));
    assert_eq!(h.report().s_thumb_ly, i16::MAX);
    assert_eq!(h.report().s_thumb_lx, i16::MIN);
}

#[test]
fn mouse_move_is_relayed_untouched() {
    let mut h = handler_with(BindTable::new());
    assert_eq!(h.handle_event(Event::MouseMove(7, -9)), Some((7, -9)));
    assert_eq!(h.report(), ControllerReport::new());
}

#[test]
fn set_analog_writes_right_stick() {
    let mut h = handler_with(BindTable::new());
    h.set_analog(1234, -4321);
    assert_eq!(h.report().s_thumb_rx, 1234);
    assert_eq!(h.report().s_thumb_ry, -4321);
    assert_eq!(h.report().s_thumb_lx, 0);
}

#[test]
fn smoothing_level_is_clamped() {
    let mut s = Settings::new(BindTable::new(), 0);
    s.update_mouse_smoothing();
    assert_eq!(s.mouse_smoothing_millis, 1);
    let mut s = Settings::new(BindTable::new(), 15);
    s.update_mouse_smoothing();
    assert_eq!(s.mouse_smoothing_millis, 10);
    assert_eq!(s.smoothing_window_nanos(), 10_000_000);
    let mut s = Settings::new(BindTable::new(), 5);
    s.update_mouse_smoothing();
    assert_eq!(s.mouse_smoothing_millis, 5);
    assert_eq!(s.smoothing_window_nanos(), 5_000_000);
}
