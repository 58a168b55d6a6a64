//! The core of an editor for a cellular automaton on an unbounded lattice.
//!
//! - [`lattice`]: the set of live sites.
//! - [`engine`]: one generation of the automaton under a birth and survival
//!   rule; it gathers its neighbour counts in a hash table of hashbrown.
//! - [`cell`]: cells in the world, the run state, the step timer and the
//!   paint controller.
//! - [`input`]: the pointer classifier.
//! - [`camera`]: the viewport transform.
//! - [`world_grid`]: where the grid lines lie.
//! - [`math`]: the integer vectors all of these share.
//!
//! A host drives the core once per frame: it classifies the pointer
//! ([`input::handle_mouse`]), toggles the run state ([`cell::handle_space`]),
//! paints ([`cell::handle_swap`]) and then ticks ([`cell::update`]).
//!
//! The core computes in integers throughout: positions and motions are whole
//! pixels, times are nanoseconds, and the viewport's scale is a fixed-point
//! number.

pub mod camera;
pub mod cell;
pub mod engine;
pub mod input;
pub mod lattice;
pub mod math;
mod tally;
pub mod world_grid;
