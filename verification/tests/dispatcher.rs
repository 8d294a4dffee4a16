use padmap::binds::BindTable;
use padmap::dispatcher::{EventDispatcher, Settings};
use padmap::handler::{EventHandler, Settings as HandlerSettings};
use padmap::types::{
    ControllerReport, Event, KeyState, MouseButton, OutputStroke, RawEvent, SCAN_GRAVE, SCAN_W,
    SCAN_X,
};

const LEFT_DOWN: u16 = 0x001;
const LEFT_UP: u16 = 0x002;
const RIGHT_DOWN: u16 = 0x004;
const RIGHT_UP: u16 = 0x008;
const MIDDLE_DOWN: u16 = 0x010;
const MIDDLE_UP: u16 = 0x020;
const BUTTON_4_DOWN: u16 = 0x040;
const BUTTON_4_UP: u16 = 0x080;
const BUTTON_5_DOWN: u16 = 0x100;
const BUTTON_5_UP: u16 = 0x200;

fn activated() -> EventDispatcher {
    let mut d = EventDispatcher::new(Settings::default());
    let out = d.process_key(1, SCAN_GRAVE, KeyState::Down);
    assert!(d.is_active());
    assert!(!out.pass_through);
    assert!(out.events.is_empty());
    d
}

#[test]
fn toggle_key_activates_and_is_suppressed() {
    let mut d = EventDispatcher::new(Settings::default());
    assert!(!d.is_active());
    let out = d.process_key(1, SCAN_GRAVE, KeyState::Down);
    assert!(d.is_active());
    assert!(!out.pass_through);
    assert!(out.events.is_empty());
    assert!(out.ups.is_empty());
}

#[test]
fn repeated_key_down_emits_once() {
    let mut d = activated();
    let out = d.process_key(1, SCAN_W, KeyState::Down);
    assert_eq!(out.events, vec![Event::Keyboard(SCAN_W, KeyState::Down)]);
    assert!(!out.pass_through);
    let out = d.process_key(1, SCAN_W, KeyState::Down);
    assert!(out.events.is_empty());
    assert!(!out.pass_through);
    assert!(d.is_active());
}

#[test]
fn first_observation_is_a_change() {
    let mut d = activated();
    let out = d.process_key(1, SCAN_W, KeyState::Up);
    assert_eq!(out.events, vec![Event::Keyboard(SCAN_W, KeyState::Up)]);
}

#[test]
fn keys_pass_through_while_inactive() {
    let mut d = EventDispatcher::new(Settings::default());
    let out = d.process_key(1, SCAN_W, KeyState::Down);
    assert!(out.pass_through);
    assert!(out.events.is_empty());
    assert!(!d.is_active());
}

#[test]
fn excluded_keys_always_pass_through() {
    let mut d = EventDispatcher::new(Settings::default());
    let out = d.process_key(1, SCAN_X, KeyState::Down);
    assert!(out.pass_through);
    assert!(out.events.is_empty());
    assert!(!d.is_active());
    let mut d = activated();
    let out = d.process_key(1, SCAN_X, KeyState::Down);
    assert!(out.pass_through);
    assert!(out.events.is_empty());
    assert!(d.is_active());
}

#[test]
fn ambiguous_mouse_flags_are_ignored() {
    let mut d = activated();
    let pairs = [
        LEFT_DOWN | LEFT_UP,
        RIGHT_DOWN | RIGHT_UP,
        MIDDLE_DOWN | MIDDLE_UP,
        BUTTON_4_DOWN | BUTTON_4_UP,
        BUTTON_5_DOWN | BUTTON_5_UP,
    ];
    for word in pairs {
        let out = d.process_stroke(1, RawEvent::Mouse { buttons: word, dx: 0, dy: 0 });
        assert!(!out.pass_through);
        assert!(out.events.is_empty());
    }
    let _ = d.process_key(1, SCAN_GRAVE, KeyState::Up);
    let out = d.process_key(1, SCAN_GRAVE, KeyState::Down);
    assert!(!d.is_active());
    assert_eq!(out.events, vec![Event::Reset]);
    assert!(out.ups.is_empty());
}

#[test]
fn mouse_button_transitions_emit_while_active() {
    let mut d = activated();
    let out = d.process_stroke(1, RawEvent::Mouse { buttons: LEFT_DOWN, dx: 0, dy: 0 });
    assert!(!out.pass_through);
    assert_eq!(
        out.events,
        vec![Event::MouseButton(MouseButton::Left, KeyState::Down)]
    );
    let out = d.process_stroke(
        1,
        RawEvent::Mouse { buttons: LEFT_UP | BUTTON_5_DOWN, dx: 0, dy: 0 },
    );
    assert_eq!(
        out.events,
        vec![
            Event::MouseButton(MouseButton::Left, KeyState::Up),
            Event::MouseButton(MouseButton::Button5, KeyState::Down),
        ]
    );
}

#[test]
fn mouse_motion_forwarded_only_while_active() {
    let mut d = EventDispatcher::new(Settings::default());
    let out = d.process_stroke(1, RawEvent::Mouse { buttons: 0, dx: 3, dy: -2 });
    assert!(out.pass_through);
    assert!(out.events.is_empty());
    let mut d = activated();
    let out = d.process_stroke(1, RawEvent::Mouse { buttons: 0, dx: 3, dy: -2 });
    assert!(!out.pass_through);
    assert_eq!(out.events, vec![Event::MouseMove(3, -2)]);
    let out = d.process_stroke(1, RawEvent::Mouse { buttons: 0, dx: 0, dy: 0 });
    assert!(!out.pass_through);
    assert!(out.events.is_empty());
}

#[test]
fn deactivation_synthesizes_releases() {
    let mut d = activated();
    let _ = d.process_key(1, SCAN_W, KeyState::Down);
    let _ = d.process_stroke(2, RawEvent::Mouse { buttons: LEFT_DOWN, dx: 0, dy: 0 });
    let _ = d.process_key(1, SCAN_GRAVE, KeyState::Up);
    let out = d.process_key(1, SCAN_GRAVE, KeyState::Down);
    assert!(!d.is_active());
    assert!(!out.pass_through);
    assert_eq!(out.events, vec![Event::Reset]);
    assert_eq!(
        out.ups,
        vec![
            OutputStroke::KeyUp(1, SCAN_W),
            OutputStroke::ButtonUp(2, MouseButton::Left),
        ]
    );
}

#[test]
fn keyboard_stroke_decodes_flags() {
    let mut d = EventDispatcher::new(Settings::default());
    let out = d.process_stroke(1, RawEvent::Keyboard { code: SCAN_GRAVE, flags: 0 });
    assert!(d.is_active());
    assert!(!out.pass_through);
    let out = d.process_stroke(1, RawEvent::Keyboard { code: SCAN_W, flags: 1 });
    assert_eq!(out.events, vec![Event::Keyboard(SCAN_W, KeyState::Up)]);
}

#[test]
fn end_to_end_toggle_scenario() {
    let mut d = EventDispatcher::new(Settings::default());
    let mut h = EventHandler::new(HandlerSettings::new(BindTable::new(), 5));
    let out = d.process_key(1, SCAN_GRAVE, KeyState::Down);
    assert!(d.is_active());
    assert!(out.events.is_empty());
    let out = d.process_key(1, SCAN_W, KeyState::Down);
    assert_eq!(out.events, vec![Event::Keyboard(SCAN_W, KeyState::Down)]);
    for e in out.events {
        assert_eq!(h.handle_event(e), None);
    }
    assert_eq!(h.report().s_thumb_ly, i16::MAX);
    let _ = d.process_key(1, SCAN_GRAVE, KeyState::Up);
    let out = d.process_key(1, SCAN_GRAVE, KeyState::Down);
    assert!(!d.is_active());
    assert_eq!(out.events, vec![Event::Reset]);
    assert_eq!(out.ups, vec![OutputStroke::KeyUp(1, SCAN_W)]);
    for e in out.events {
        assert_eq!(h.handle_event(e), None);
    }
    assert_eq!(h.report(), ControllerReport::new());
}
