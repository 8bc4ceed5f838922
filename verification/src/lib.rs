//! Decision core of a soccer-playing robot.
//!
//! Every control tick the behaviour engine chooses one motion command among a
//! prioritised list of candidate actions, and carries the hysteresis state that
//! keeps the choice stable from tick to tick:
//!
//! - `candidates` builds the ordered candidate list of a cycle,
//! - `arbiter` commits to the first candidate whose executor yields a command,
//! - `hysteresis` holds the transitions of the state that survives a cycle,
//! - `behavior` is the engine itself, and `laws` states what holds of it for
//!   every input.
//!
//! Beside the engine stand the filter that follows the game controller's
//! announcements, the interpolator that plays a motion file item by item, and
//! the key bindings of the viewer's configuration.

pub mod action;
pub mod arbiter;
pub mod association;
pub mod behavior;
pub mod candidates;
pub mod configuration;
pub mod game_controller_filter;
pub mod hysteresis;
pub mod keys;
pub mod laws;
pub mod motion_interpolator;
pub mod time;
pub mod world;
