//! A bootstrap (sequential importance resampling) particle filter: the integer
//! and particle bookkeeping of the filter, with its contracts.
//!
//! - `kinds`: the resampling backends, the step errors and the buffer-length rules.
//! - `propagate`: applying the user's transition to every particle.
//! - `resample`: drawing the resampled cloud from ancestor indices.
//! - `cloud`: the borrowed particle buffers of a filter and the operations of a step.
//! - `weight_bits`: order, finiteness and range tests on weights read as their
//!   binary32 bit patterns.
//! - `estimate`: the discrete MAP estimate.
use vstd::prelude::*;

pub mod binary32;
pub mod cloud;
pub mod estimate;
pub mod kinds;
pub mod propagate;
pub mod resample;
pub mod weight_bits;

pub use crate::estimate::map_particle;
pub use crate::kinds::{ResamplerKind, StepError};

verus! {

} // verus!
