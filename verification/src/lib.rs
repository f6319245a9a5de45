//! A grid of points that follows the pointer.
//!
//! The crate holds the model behind a small interactive toy: a lattice of
//! points whose drawn positions are pulled toward the cursor or pushed away
//! from it, and a column of on-screen buttons that select the interaction
//! mode and the colour of the points. A host supplies the pointer input and
//! the size of the window once per frame and draws what the model hands
//! back.
//!
//! All coordinates are integers in a fixed-point unit (see [`units`]), so
//! every statement made about the geometry is exact.
//!
//! - [`grid`] lays the points out and computes where each is drawn;
//! - [`displacement`] says where a single point is drawn;
//! - [`hotspot`] finds the button under a press;
//! - [`state`] holds everything together and advances it frame by frame.

pub mod units;
pub mod numeric;
pub mod geometry;
pub mod controls;
pub mod displacement;
pub mod grid;
pub mod hotspot;
pub mod state;

pub use controls::{Action, Mode, PaletteColor};
pub use displacement::displace;
pub use geometry::{Point, Position};
pub use grid::{generate, update, Grid, LayoutError};
pub use hotspot::{hit_test, Hotspot};
pub use state::{ApplicationState, PointerState};
