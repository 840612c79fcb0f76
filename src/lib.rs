//! Typed spaces, values and the session protocol for driving a
//! reinforcement-learning environment that runs in an outside engine.
pub mod client;
pub mod descriptor;
pub mod environment;
pub mod error;
pub mod number;
pub mod payload;
pub mod sampler;
pub mod space;
pub mod space_data;
pub mod space_template;

use vstd::prelude::*;

pub use space_data::SpaceData;

verus! {

/// What the agent sends to the environment.
pub type Action = SpaceData;

/// What the environment reports back.
pub type Observation = SpaceData;

} // verus!
