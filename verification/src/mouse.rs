//! Identities of mouse buttons.

use vstd::prelude::*;

verus! {

/// A mouse button identity.
///
/// The `Double*` variants describe double clicks as some platforms report
/// them; the `Forward`/`Back`/`Task` variants are extra buttons as other
/// platforms name them.
#[derive(Copy, Clone, PartialEq, Eq, Structural, Debug, Hash)]
pub enum Mouse {
    Left,
    DoubleLeft,
    Right,
    DoubleRight,
    Middle,
    DoubleMiddle,
    Side,
    DoubleSide,
    Extra,
    DoubleExtra,
    Forward,
    Back,
    Task,
}

} // verus!
