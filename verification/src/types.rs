//! Plain value types shared by the dispatcher and the handler.

use vstd::prelude::*;

verus! {

/// Press state of a physical key or mouse button. Only transitions between
/// these two states produce logical events; repeats are filtered out.
#[derive(Clone, Copy, PartialEq, Eq, Structural, Debug)]
pub enum KeyState {
    Down,
    Up,
}

/// The five mouse buttons the dispatcher recognizes.
#[derive(Clone, Copy, PartialEq, Eq, Structural, Debug)]
pub enum MouseButton {
    Left,
    Right,
    Middle,
    Button4,
    Button5,
}

impl MouseButton {
    /// Stable index used to key per-device button state.
    pub open spec fn index_spec(self) -> u16 {
        match self {
            MouseButton::Left => 0,
            MouseButton::Right => 1,
            MouseButton::Middle => 2,
            MouseButton::Button4 => 3,
            MouseButton::Button5 => 4,
        }
    }

    pub fn index(self) -> (i: u16)
        ensures
            i == self.index_spec(),
    {
        match self {
            MouseButton::Left => 0,
            MouseButton::Right => 1,
            MouseButton::Middle => 2,
            MouseButton::Button4 => 3,
            MouseButton::Button5 => 4,
        }
    }

    pub open spec fn from_index_spec(i: u16) -> Option<MouseButton> {
        if i == 0 {
            Some(MouseButton::Left)
        } else if i == 1 {
            Some(MouseButton::Right)
        } else if i == 2 {
            Some(MouseButton::Middle)
        } else if i == 3 {
            Some(MouseButton::Button4)
        } else if i == 4 {
            Some(MouseButton::Button5)
        } else {
            None
        }
    }

    pub fn from_index(i: u16) -> (r: Option<MouseButton>)
        ensures
            r == Self::from_index_spec(i),
    {
        if i == 0 {
            Some(MouseButton::Left)
        } else if i == 1 {
            Some(MouseButton::Right)
        } else if i == 2 {
            Some(MouseButton::Middle)
        } else if i == 3 {
            Some(MouseButton::Button4)
        } else if i == 4 {
            Some(MouseButton::Button5)
        } else {
            None
        }
    }
}

/// Index and button determine each other.
pub proof fn lemma_button_index_roundtrip(b: MouseButton)
    ensures
        MouseButton::from_index_spec(b.index_spec()) == Some(b),
        b.index_spec() <= 4,
{
}

/// Digital controls of the virtual controller that a bind can drive.
/// The trigger variants set a trigger byte instead of a button bit.
#[derive(Clone, Copy, PartialEq, Eq, Structural, Debug)]
pub enum ControllerButton {
    DpadUp,
    DpadDown,
    DpadLeft,
    DpadRight,
    Start,
    Back,
    LeftThumb,
    RightThumb,
    LeftShoulder,
    RightShoulder,
    Guide,
    A,
    B,
    X,
    Y,
    LeftTrigger,
    RightTrigger,
}

impl ControllerButton {
    /// Bit of this button in the report's button word. The triggers have no
    /// bit: they are reported through the trigger bytes.
    pub open spec fn mask_spec(self) -> u16 {
        match self {
            ControllerButton::DpadUp => 0x0001,
            ControllerButton::DpadDown => 0x0002,
            ControllerButton::DpadLeft => 0x0004,
            ControllerButton::DpadRight => 0x0008,
            ControllerButton::Start => 0x0010,
            ControllerButton::Back => 0x0020,
            ControllerButton::LeftThumb => 0x0040,
            ControllerButton::RightThumb => 0x0080,
            ControllerButton::LeftShoulder => 0x0100,
            ControllerButton::RightShoulder => 0x0200,
            ControllerButton::Guide => 0x0400,
            ControllerButton::A => 0x1000,
            ControllerButton::B => 0x2000,
            ControllerButton::X => 0x4000,
            ControllerButton::Y => 0x8000,
            ControllerButton::LeftTrigger => 0,
            ControllerButton::RightTrigger => 0,
        }
    }

    pub fn mask(self) -> (m: u16)
        ensures
            m == self.mask_spec(),
    {
        match self {
            ControllerButton::DpadUp => 0x0001,
            ControllerButton::DpadDown => 0x0002,
            ControllerButton::DpadLeft => 0x0004,
            ControllerButton::DpadRight => 0x0008,
            ControllerButton::Start => 0x0010,
            ControllerButton::Back => 0x0020,
            ControllerButton::LeftThumb => 0x0040,
            ControllerButton::RightThumb => 0x0080,
            ControllerButton::LeftShoulder => 0x0100,
            ControllerButton::RightShoulder => 0x0200,
            ControllerButton::Guide => 0x0400,
            ControllerButton::A => 0x1000,
            ControllerButton::B => 0x2000,
            ControllerButton::X => 0x4000,
            ControllerButton::Y => 0x8000,
            ControllerButton::LeftTrigger => 0,
            ControllerButton::RightTrigger => 0,
        }
    }
}

/// Normalized logical event handed from the dispatcher to the handler.
/// `Reset` clears the handler's latched state when remapping deactivates.
#[derive(Clone, Copy, PartialEq, Eq, Structural, Debug)]
pub enum Event {
    MouseMove(i32, i32),
    MouseButton(MouseButton, KeyState),
    Keyboard(u16, KeyState),
    Reset,
}

/// Physical control that a bind maps from. Keyboard keys are identified by
/// their scan code.
#[derive(Clone, Copy, PartialEq, Eq, Structural, Debug)]
pub enum Bind {
    Keyboard(u16),
    Mouse(MouseButton),
}

/// What a bind drives. `Analog` is accepted by the bind schema but has no
/// runtime effect.
#[derive(Clone, Copy, PartialEq, Eq, Structural, Debug)]
pub enum ControllerAction {
    Button(ControllerButton),
    Analog,
}

/// The full digital and analog state submitted to the virtual-controller
/// sink: two signed 16-bit stick axes each way, two trigger bytes, and a
/// button bit word.
#[derive(Clone, Copy, PartialEq, Eq, Structural, Debug)]
pub struct ControllerReport {
    pub w_buttons: u16,
    pub b_left_trigger: u8,
    pub b_right_trigger: u8,
    pub s_thumb_lx: i16,
    pub s_thumb_ly: i16,
    pub s_thumb_rx: i16,
    pub s_thumb_ry: i16,
}

impl ControllerReport {
    /// Centered sticks, released triggers and buttons.
    pub open spec fn zero_spec() -> ControllerReport {
        ControllerReport {
            w_buttons: 0,
            b_left_trigger: 0,
            b_right_trigger: 0,
            s_thumb_lx: 0,
            s_thumb_ly: 0,
            s_thumb_rx: 0,
            s_thumb_ry: 0,
        }
    }

    pub fn new() -> (r: ControllerReport)
        ensures
            r == ControllerReport::zero_spec(),
    {
        ControllerReport {
            w_buttons: 0,
            b_left_trigger: 0,
            b_right_trigger: 0,
            s_thumb_lx: 0,
            s_thumb_ly: 0,
            s_thumb_rx: 0,
            s_thumb_ry: 0,
        }
    }
}

/// A raw stroke from the capture driver, decoded to plain values at the
/// system boundary. Keyboard strokes carry the driver's key flag word;
/// mouse strokes carry the combined button state word and relative motion.
#[derive(Clone, Copy, PartialEq, Eq, Structural, Debug)]
pub enum RawEvent {
    Keyboard { code: u16, flags: u16 },
    Mouse { buttons: u16, dx: i32, dy: i32 },
}

/// A synthetic release the dispatcher asks the surrounding program to
/// re-inject, so the system never observes a stuck-down key or button.
#[derive(Clone, Copy, PartialEq, Eq, Structural, Debug)]
pub enum OutputStroke {
    KeyUp(u32, u16),
    ButtonUp(u32, MouseButton),
}

/// Scan codes (set 1) of the keys the pipeline treats specially.
pub const SCAN_TAB: u16 = 0x0F;

pub const SCAN_W: u16 = 0x11;

pub const SCAN_A: u16 = 0x1E;

pub const SCAN_S: u16 = 0x1F;

pub const SCAN_D: u16 = 0x20;

pub const SCAN_J: u16 = 0x24;

pub const SCAN_L: u16 = 0x26;

pub const SCAN_GRAVE: u16 = 0x29;

pub const SCAN_LEFT_SHIFT: u16 = 0x2A;

pub const SCAN_Z: u16 = 0x2C;

pub const SCAN_X: u16 = 0x2D;

pub const SCAN_LEFT_ALT: u16 = 0x38;

/// Bit set in the driver's keyboard flag word when the stroke is a release.
pub const KEY_FLAG_UP: u16 = 0x01;

pub open spec fn key_state_of_flags_spec(flags: u16) -> KeyState {
    if flags & KEY_FLAG_UP == KEY_FLAG_UP {
        KeyState::Up
    } else {
        KeyState::Down
    }
}

/// Boundary decode of the driver's keyboard flag word.
pub fn key_state_of_flags(flags: u16) -> (s: KeyState)
    ensures
        s == key_state_of_flags_spec(flags),
{
    if flags & KEY_FLAG_UP == KEY_FLAG_UP {
        KeyState::Up
    } else {
        KeyState::Down
    }
}

} // verus!
