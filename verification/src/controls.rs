//! What the on-screen buttons select.

use vstd::prelude::*;

verus! {

/// How the cursor acts on the points.
#[derive(Clone, Copy, Debug, PartialEq, Eq, Structural)]
pub enum Mode {
    /// Points move toward the cursor.
    Pull,
    /// Points move away from the cursor.
    Push,
}

/// The colour in which the points are drawn.
#[derive(Clone, Copy, Debug, PartialEq, Eq, Structural)]
pub enum PaletteColor {
    White,
    Cyan,
    HotPink,
    SpringGreen,
}

/// What a press on a button asks for.
#[derive(Clone, Copy, Debug, PartialEq, Eq, Structural)]
pub enum Action {
    SetMode(Mode),
    SetColor(PaletteColor),
}

} // verus!
