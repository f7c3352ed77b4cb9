//! Floating-origin positioning: positions held as an integer grid cell plus a
//! small local offset, the exact conversions between that form and a wide world
//! coordinate, and the per-frame passes that keep a render-side grid and a
//! physics frame centred on a moving observer.
//!
//! All lengths are integers in one fine unit (for instance micrometres), so
//! every conversion and every shift below is exact.
use vstd::prelude::*;

pub mod grid;
pub mod physics;
pub mod position;
pub mod recenter;
pub mod settings;
pub mod smoothing;

pub use grid::{GridCell, LocalOffset, WorldVec};
pub use physics::{PhysicsOrigin, SyncedBody};
pub use position::SpacePosition;
pub use recenter::recenter;
pub use settings::{GridError, GridSettings};
pub use smoothing::LAG_WEIGHT_ONE;

verus! {

} // verus!
