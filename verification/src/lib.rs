//! Activity-to-state pipeline of a desktop coding companion.
//!
//! Three layers, leaf to root: the signal sampler in [`services::activity`],
//! the avatar state machine in [`services::state_machine`], and the
//! progression engine in [`models::growth`]. [`services::companion`] owns one
//! of each and is the single entry point through which they change.

pub mod events;
pub mod models;
pub mod services;
pub mod utils;
