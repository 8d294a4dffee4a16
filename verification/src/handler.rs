//! The handler side of the pipeline: consumes logical events, resolves
//! binds into the controller report, tracks the movement keys, and exposes
//! the latched state the report loop pushes to the sink every cycle.

use vstd::prelude::*;
use crate::binds::BindTable;
use crate::types::{
    Bind, ControllerAction, ControllerButton, ControllerReport, Event, KeyState, MouseButton,
    SCAN_A, SCAN_D, SCAN_S, SCAN_W, SCAN_X,
};

verus! {

/// The fixed parachute-mode key. Pressing it toggles the alternate
/// sensitivity; it is not configurable through the bind table.
pub const PARACHUTE_KEY: u16 = SCAN_X;

/// Handler settings: the bind table and the smoothing level, which is
/// clamped to a window of 1 to 10 milliseconds.
pub struct Settings {
    pub binds: BindTable,
    pub mouse_smoothing_level: u8,
    pub mouse_smoothing_millis: u64,
}

pub open spec fn clamp_level_spec(level: u8) -> u64 {
    if level < 1 {
        1
    } else if level > 10 {
        10
    } else {
        level as u64
    }
}

impl Settings {
    pub closed spec fn smoothing_millis_spec(self) -> u64 {
        self.mouse_smoothing_millis
    }

    pub fn new(binds: BindTable, mouse_smoothing_level: u8) -> (s: Settings)
        ensures
            s.binds == binds,
            s.mouse_smoothing_level == mouse_smoothing_level,
            s.smoothing_millis_spec() == 5,
    {
        Settings { binds, mouse_smoothing_level, mouse_smoothing_millis: 5 }
    }

    /// Recompute the smoothing window from the configured level.
    pub fn update_mouse_smoothing(&mut self)
        ensures
            final(self).binds == old(self).binds,
            final(self).mouse_smoothing_level == old(self).mouse_smoothing_level,
            final(self).smoothing_millis_spec() == clamp_level_spec(
                old(self).mouse_smoothing_level,
            ),
    {
        let level = self.mouse_smoothing_level;
        let clamped: u64 = if level < 1 {
            1
        } else if level > 10 {
            10
        } else {
            level as u64
        };
        self.mouse_smoothing_millis = clamped;
    }

    /// The smoothing window in nanoseconds, as the sample buffer expects it.
    pub fn smoothing_window_nanos(&self) -> (w: u64)
        ensures
            w == (if self.smoothing_millis_spec() > 10 {
                10u64
            } else {
                self.smoothing_millis_spec()
            }) * 1_000_000,
    {
        let m = if self.mouse_smoothing_millis > 10 {
            10
        } else {
            self.mouse_smoothing_millis
        };
        m * 1_000_000
    }
}

pub open spec fn trigger_value_spec(st: KeyState) -> u8 {
    if st is Down {
        255
    } else {
        0
    }
}

/// The report after resolving one bind: a trigger bind sets its trigger
/// byte, any other button bind sets or clears its bit, an `Analog` bind or
/// an unbound control changes nothing.
pub open spec fn bind_report_spec(
    r: ControllerReport,
    action: Option<ControllerAction>,
    st: KeyState,
) -> ControllerReport {
    match action {
        Some(ControllerAction::Button(cb)) => {
            if cb == ControllerButton::LeftTrigger {
                ControllerReport { b_left_trigger: trigger_value_spec(st), ..r }
            } else if cb == ControllerButton::RightTrigger {
                ControllerReport { b_right_trigger: trigger_value_spec(st), ..r }
            } else if st is Down {
                ControllerReport { w_buttons: r.w_buttons | cb.mask_spec(), ..r }
            } else {
                ControllerReport { w_buttons: r.w_buttons & !cb.mask_spec(), ..r }
            }
        },
        _ => r,
    }
}

/// The parachute flag after a bind: a press of the fixed parachute key
/// toggles it, everything else leaves it alone.
pub open spec fn parachute_after_spec(parachute: bool, bind: Bind, st: KeyState) -> bool {
    if bind == Bind::Keyboard(PARACHUTE_KEY) && st is Down {
        !parachute
    } else {
        parachute
    }
}

/// One digital stick axis from a pair of opposite keys: both or neither
/// pressed cancel to center, a single key drives the axis to its extreme.
pub open spec fn movement_axis_spec(pos: bool, neg: bool) -> i16 {
    if pos == neg {
        0
    } else if pos {
        i16::MAX
    } else {
        i16::MIN
    }
}

/// Law: the cancel/extreme/center rule for one axis, spelled out.
pub proof fn lemma_movement_axis_rule(pos: bool, neg: bool)
    ensures
        pos == neg ==> movement_axis_spec(pos, neg) == 0,
        pos && !neg ==> movement_axis_spec(pos, neg) == i16::MAX,
        !pos && neg ==> movement_axis_spec(pos, neg) == i16::MIN,
{
}

/// Movement key flags (w, a, s, d) after one keyboard event.
pub open spec fn moves_after_spec(
    moves: (bool, bool, bool, bool),
    code: u16,
    st: KeyState,
) -> (bool, bool, bool, bool) {
    (
        if code == SCAN_W {
            st is Down
        } else {
            moves.0
        },
        if code == SCAN_A {
            st is Down
        } else {
            moves.1
        },
        if code == SCAN_S {
            st is Down
        } else {
            moves.2
        },
        if code == SCAN_D {
            st is Down
        } else {
            moves.3
        },
    )
}

/// The report with the left stick set from the movement keys.
pub open spec fn with_movement_spec(
    r: ControllerReport,
    moves: (bool, bool, bool, bool),
) -> ControllerReport {
    ControllerReport {
        s_thumb_ly: movement_axis_spec(moves.0, moves.2),
        s_thumb_lx: movement_axis_spec(moves.3, moves.1),
        ..r
    }
}

/// Consumes the logical event stream and keeps the controller report.
pub struct EventHandler {
    settings: Settings,
    report: ControllerReport,
    moves: (bool, bool, bool, bool),
    mouse_left: KeyState,
    mouse_right: KeyState,
    parachute_active: bool,
}

impl EventHandler {
    pub closed spec fn report_spec(self) -> ControllerReport {
        self.report
    }

    pub closed spec fn settings_spec(self) -> Settings {
        self.settings
    }

    pub closed spec fn moves_spec(self) -> (bool, bool, bool, bool) {
        self.moves
    }

    pub closed spec fn mouse_latch_spec(self) -> (KeyState, KeyState) {
        (self.mouse_left, self.mouse_right)
    }

    pub closed spec fn parachute_spec(self) -> bool {
        self.parachute_active
    }

    pub fn new(settings: Settings) -> (h: EventHandler)
        ensures
            h.settings_spec().binds == settings.binds,
            h.settings_spec().mouse_smoothing_level == settings.mouse_smoothing_level,
            h.settings_spec().smoothing_millis_spec() == clamp_level_spec(
                settings.mouse_smoothing_level,
            ),
            h.report_spec() == ControllerReport::zero_spec(),
            h.moves_spec() == (false, false, false, false),
            h.mouse_latch_spec() == (KeyState::Up, KeyState::Up),
            !h.parachute_spec(),
    {
        let mut settings = settings;
        settings.update_mouse_smoothing();
        EventHandler {
            settings,
            report: ControllerReport::new(),
            moves: (false, false, false, false),
            mouse_left: KeyState::Up,
            mouse_right: KeyState::Up,
            parachute_active: false,
        }
    }

    pub fn report(&self) -> (r: ControllerReport)
        ensures
            r == self.report_spec(),
    {
        self.report
    }

    pub fn parachute_active(&self) -> (b: bool)
        ensures
            b == self.parachute_spec(),
    {
        self.parachute_active
    }

    /// The latched left and right mouse-button states.
    pub fn mouse_buttons(&self) -> (r: (KeyState, KeyState))
        ensures
            r == self.mouse_latch_spec(),
    {
        (self.mouse_left, self.mouse_right)
    }

    /// Resolve one bind into the report and the parachute flag.
    pub fn handle_bind(&mut self, bind: Bind, state: KeyState)
        ensures
            final(self).report_spec() == bind_report_spec(
                old(self).report_spec(),
                old(self).settings_spec().binds.spec_get(bind),
                state,
            ),
            final(self).parachute_spec() == parachute_after_spec(
                old(self).parachute_spec(),
                bind,
                state,
            ),
            final(self).settings_spec() == old(self).settings_spec(),
            final(self).moves_spec() == old(self).moves_spec(),
            final(self).mouse_latch_spec() == old(self).mouse_latch_spec(),
    {
        let action = self.settings.binds.get(bind);
        if let Some(a) = action {
            match a {
                ControllerAction::Button(cb) => {
                    match cb {
                        ControllerButton::LeftTrigger => {
                            self.report.b_left_trigger = if matches!(state, KeyState::Down) {
                                255
                            } else {
                                0
                            };
                        },
                        ControllerButton::RightTrigger => {
                            self.report.b_right_trigger = if matches!(state, KeyState::Down) {
                                255
                            } else {
                                0
                            };
                        },
                        other => {
                            let mask = other.mask();
                            if matches!(state, KeyState::Down) {
                                self.report.w_buttons = self.report.w_buttons | mask;
                            } else {
                                self.report.w_buttons = self.report.w_buttons & !mask;
                            }
                        },
                    }
                },
                ControllerAction::Analog => {},
            }
        }
        if bind == Bind::Keyboard(PARACHUTE_KEY) && matches!(state, KeyState::Down) {
            self.parachute_active = !self.parachute_active;
        }
    }

    /// Set the left stick from the movement keys.
    pub fn update_movement(&mut self, w: bool, a: bool, s: bool, d: bool)
        ensures
            final(self).report_spec() == with_movement_spec(old(self).report_spec(), (w, a, s, d)),
            final(self).settings_spec() == old(self).settings_spec(),
            final(self).moves_spec() == old(self).moves_spec(),
            final(self).mouse_latch_spec() == old(self).mouse_latch_spec(),
            final(self).parachute_spec() == old(self).parachute_spec(),
    {
        self.report.s_thumb_ly = if w == s {
            0
        } else if w {
            i16::MAX
        } else {
            i16::MIN
        };
        self.report.s_thumb_lx = if a == d {
            0
        } else if d {
            i16::MAX
        } else {
            i16::MIN
        };
    }

    /// Set the right stick to an aim vector the caller has already scaled.
    pub fn set_analog(&mut self, rx: i16, ry: i16)
        ensures
            final(self).report_spec() == (ControllerReport {
                s_thumb_rx: rx,
                s_thumb_ry: ry,
                ..old(self).report_spec()
            }),
            final(self).settings_spec() == old(self).settings_spec(),
            final(self).moves_spec() == old(self).moves_spec(),
            final(self).mouse_latch_spec() == old(self).mouse_latch_spec(),
            final(self).parachute_spec() == old(self).parachute_spec(),
    {
        self.report.s_thumb_rx = rx;
        self.report.s_thumb_ry = ry;
    }

    /// Consume one logical event. A motion event is handed back to the
    /// caller for the sample relay; everything else updates latched state.
    pub fn handle_event(&mut self, event: Event) -> (sample: Option<(i32, i32)>)
        ensures
            final(self).settings_spec() == old(self).settings_spec(),
            event matches Event::MouseMove(x, y) ==> sample == Some((x, y)) && *final(self)
                == *old(self),
            event matches Event::MouseButton(b, st) ==> sample is None && {
                &&& final(self).report_spec() == bind_report_spec(
                    old(self).report_spec(),
                    old(self).settings_spec().binds.spec_get(Bind::Mouse(b)),
                    st,
                )
                &&& final(self).parachute_spec() == parachute_after_spec(
                    old(self).parachute_spec(),
                    Bind::Mouse(b),
                    st,
                )
                &&& final(self).mouse_latch_spec() == (
                    if b == MouseButton::Left {
                        st
                    } else {
                        old(self).mouse_latch_spec().0
                    },
                    if b == MouseButton::Right {
                        st
                    } else {
                        old(self).mouse_latch_spec().1
                    },
                )
                &&& final(self).moves_spec() == old(self).moves_spec()
            },
            event matches Event::Keyboard(code, st) ==> sample is None && {
                let moves2 = moves_after_spec(old(self).moves_spec(), code, st);
                &&& final(self).moves_spec() == moves2
                &&& final(self).report_spec() == with_movement_spec(
                    bind_report_spec(
                        old(self).report_spec(),
                        old(self).settings_spec().binds.spec_get(Bind::Keyboard(code)),
                        st,
                    ),
                    moves2,
                )
                &&& final(self).parachute_spec() == parachute_after_spec(
                    old(self).parachute_spec(),
                    Bind::Keyboard(code),
                    st,
                )
                &&& final(self).mouse_latch_spec() == old(self).mouse_latch_spec()
            },
            event == Event::Reset ==> sample is None && final(self).report_spec()
                == ControllerReport::zero_spec() && final(self).mouse_latch_spec() == (
            KeyState::Up,
            KeyState::Up,
            ) && final(self).moves_spec() == old(self).moves_spec() && final(self).parachute_spec()
                == old(self).parachute_spec(),
    {
        match event {
            Event::MouseMove(x, y) => Some((x, y)),
            Event::MouseButton(b, st) => {
                if matches!(b, MouseButton::Left) {
                    self.mouse_left = st;
                }
                if matches!(b, MouseButton::Right) {
                    self.mouse_right = st;
                }
                self.handle_bind(Bind::Mouse(b), st);
                None
            },
            Event::Keyboard(code, st) => {
                self.handle_bind(Bind::Keyboard(code), st);
                let pressed = matches!(st, KeyState::Down);
                if code == SCAN_W {
                    self.moves.0 = pressed;
                }
                if code == SCAN_A {
                    self.moves.1 = pressed;
                }
                if code == SCAN_S {
                    self.moves.2 = pressed;
                }
                if code == SCAN_D {
                    self.moves.3 = pressed;
                }
                let (w, a, s, d) = self.moves;
                self.update_movement(w, a, s, d);
                None
            },
            Event::Reset => {
                self.mouse_left = KeyState::Up;
                self.mouse_right = KeyState::Up;
                self.report = ControllerReport::new();
                None
            },
        }
    }
}

} // verus!
