//! Alternative naming of mouse buttons kept for compatibility with older
//! callers; `crate::Mouse` is the identity the dispatch core works with.

use vstd::prelude::*;

verus! {

/// A mouse button identity under its older name.
#[derive(Copy, Clone, PartialEq, Eq, Structural, Debug, Hash)]
pub enum MouseButton {
    Left,
    DoubleLeft,
    Right,
    DoubleRight,
    Middle,
    DoubleMiddle,
    Side,
    DoubleSide,
    Extra,
    DoubleExtra,
    Forward,
    Back,
    Task,
}

} // verus!
