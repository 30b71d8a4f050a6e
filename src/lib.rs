//! A microscopic traffic simulator on a circular multi-lane road.
//!
//! All quantities are integers in units that the caller picks: positions and
//! lengths in length units, velocities in length units per time unit,
//! accelerations in length units per time unit squared, and `dt` in time units.
//! A fine length unit (a micrometre of road, say) keeps the model close to the
//! continuous one.
pub mod config;
pub mod kinematics;
pub mod locator;
pub mod velocity;
pub mod motion;
pub mod simulation;
mod random;
