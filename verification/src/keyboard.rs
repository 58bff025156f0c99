//! Identities of keyboard keys.
//!
//! A `Keyboard` value names a physical key, independent of whether it is
//! being pressed or released.  The `Other` variant carries a raw platform
//! key code for keys this enumeration does not name.

use vstd::prelude::*;

verus! {

/// A keyboard key identity.
#[derive(Copy, Clone, PartialEq, Eq, Structural, Debug, Hash)]
pub enum Keyboard {
    BackSpace,
    Tab,
    Enter,
    Escape,
    Space,
    Home,
    Left,
    Up,
    Right,
    Down,
    Insert,
    Delete,
    Number0,
    Number1,
    Number2,
    Number3,
    Number4,
    Number5,
    Number6,
    Number7,
    Number8,
    Number9,
    A,
    B,
    C,
    D,
    E,
    F,
    G,
    H,
    I,
    J,
    K,
    L,
    M,
    N,
    O,
    P,
    Q,
    R,
    S,
    T,
    U,
    V,
    W,
    X,
    Y,
    Z,
    Numpad0,
    Numpad1,
    Numpad2,
    Numpad3,
    Numpad4,
    Numpad5,
    Numpad6,
    Numpad7,
    Numpad8,
    Numpad9,
    F1,
    F2,
    F3,
    F4,
    F5,
    F6,
    F7,
    F8,
    F9,
    F10,
    F11,
    F12,
    F13,
    F14,
    F15,
    F16,
    F17,
    F18,
    F19,
    F20,
    F21,
    F22,
    F23,
    F24,
    NumLock,
    ScrollLock,
    CapsLock,
    LeftShift,
    RightShift,
    LeftControl,
    RightControl,
    LeftAlt,
    RightAlt,
    LeftWindows,
    RightWindows,
    PageUp,
    PageDown,
    Print,
    PrintScreen,
    Multiply,
    Add,
    Separator,
    Subtract,
    Decimal,
    Divide,
    Other(i32),
}

} // verus!
