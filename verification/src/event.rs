//! The discrete input vocabulary the windowing layer delivers:
//! keys, mouse buttons, touch phases, action edges and modifier sets.

use vstd::prelude::*;

verus! {

/// The shift modifier bit.
pub const MODIFIER_SHIFT: i32 = 1;

/// The control modifier bit.
pub const MODIFIER_CONTROL: i32 = 2;

/// The alt modifier bit.
pub const MODIFIER_ALT: i32 = 4;

/// The super modifier bit.
pub const MODIFIER_SUPER: i32 = 8;

/// A set of key modifiers, one bit per modifier.
#[derive(Clone, Copy, PartialEq, Eq, Structural, Debug, Hash)]
pub struct Modifiers {
    /// The modifier bits.
    pub bits: i32,
}

impl Modifiers {
    /// The empty modifier set.
    pub fn empty() -> (r: Modifiers)
        ensures
            r.bits == 0,
    {
        Modifiers { bits: 0 }
    }

    /// The union of two modifier sets.
    pub fn union(&self, other: &Modifiers) -> (r: Modifiers)
        ensures
            r.bits == (self.bits | other.bits),
    {
        Modifiers { bits: self.bits | other.bits }
    }

    /// Whether every modifier of `other` is set here.
    pub fn contains(&self, other: &Modifiers) -> (r: bool)
        ensures
            r == ((self.bits & other.bits) == other.bits),
    {
        (self.bits & other.bits) == other.bits
    }
}

/// The state transition of a key or button.
#[derive(Clone, Copy, PartialEq, Eq, Structural, Debug, Hash)]
pub enum Action {
    /// It went up.
    Release,
    /// It went down.
    Press,
}

/// The phase of a touch contact.
#[derive(Clone, Copy, PartialEq, Eq, Structural, Debug, Hash)]
pub enum TouchAction {
    /// Contact began.
    Start,
    /// Contact ended.
    End,
    /// Contact moved.
    Move,
    /// Contact was cancelled.
    Cancel,
}

/// A mouse button.
#[derive(Clone, Copy, PartialEq, Eq, Structural, Debug, Hash)]
pub enum MouseButton {
    /// The first button.
    Button1,
    /// The second button.
    Button2,
    /// The third button.
    Button3,
    /// The fourth button.
    Button4,
    /// The fifth button.
    Button5,
    /// The sixth button.
    Button6,
    /// The seventh button.
    Button7,
    /// The eighth button.
    Button8,
}

/// A keyboard key, the union of what the supported windowing layers
/// report.
#[derive(Clone, Copy, PartialEq, Eq, Structural, Debug, Hash)]
#[allow(missing_docs)]
pub enum Key {
    Key1,
    Key2,
    Key3,
    Key4,
    Key5,
    Key6,
    Key7,
    Key8,
    Key9,
    Key0,
    A,
    B,
    C,
    D,
    E,
    F,
    G,
    H,
    I,
    J,
    K,
    L,
    M,
    N,
    O,
    P,
    Q,
    R,
    S,
    T,
    U,
    V,
    W,
    X,
    Y,
    Z,
    Escape,
    F1,
    F2,
    F3,
    F4,
    F5,
    F6,
    F7,
    F8,
    F9,
    F10,
    F11,
    F12,
    Snapshot,
    Scroll,
    Pause,
    Insert,
    Home,
    Delete,
    End,
    PageDown,
    PageUp,
    Left,
    Up,
    Right,
    Down,
    Back,
    Return,
    Space,
    Numlock,
    Numpad0,
    Numpad1,
    Numpad2,
    Numpad3,
    Numpad4,
    Numpad5,
    Numpad6,
    Numpad7,
    Numpad8,
    Numpad9,
    Add,
    Apostrophe,
    Backslash,
    Comma,
    Divide,
    Equals,
    Grave,
    LAlt,
    LBracket,
    LControl,
    LShift,
    LWin,
    Minus,
    Multiply,
    Period,
    RAlt,
    RBracket,
    RControl,
    RShift,
    RWin,
    Semicolon,
    Slash,
    Subtract,
    Tab,
    Unknown,
}

/// How many samples a multisampled canvas uses.
#[derive(Clone, Copy, PartialEq, Eq, Structural, Debug)]
pub enum NumSamples {
    /// No multisampling.
    Zero,
    /// One sample.
    One,
    /// Two samples.
    Two,
    /// Four samples.
    Four,
    /// Eight samples.
    Eight,
    /// Sixteen samples.
    Sixteen,
}

impl NumSamples {
    /// The sample count for a requested number; only powers of two up
    /// to sixteen exist.
    pub fn from_u32(i: u32) -> (r: Option<NumSamples>)
        ensures
            r == (match i {
                0u32 => Some(NumSamples::Zero),
                1u32 => Some(NumSamples::One),
                2u32 => Some(NumSamples::Two),
                4u32 => Some(NumSamples::Four),
                8u32 => Some(NumSamples::Eight),
                16u32 => Some(NumSamples::Sixteen),
                _ => None::<NumSamples>,
            }),
    {
        match i {
            0 => Some(NumSamples::Zero),
            1 => Some(NumSamples::One),
            2 => Some(NumSamples::Two),
            4 => Some(NumSamples::Four),
            8 => Some(NumSamples::Eight),
            16 => Some(NumSamples::Sixteen),
            _ => None,
        }
    }
}

/// How a canvas is created: vertical synchronization and sampling.
#[derive(Clone, Copy, PartialEq, Eq, Structural, Debug)]
pub struct CanvasSetup {
    /// Whether buffer swaps wait for the display.
    pub vsync: bool,
    /// The multisampling level.
    pub samples: NumSamples,
}

} // verus!
