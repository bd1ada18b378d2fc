//! Continuous-time periodic signals and their discrete sampled waveforms.
//!
//! A `Signal` is a time-parametric amplitude function that can be evaluated
//! at arbitrary instants and sampled into a materialized `Wave`.  All times
//! are exact rationals (seconds) and all amplitudes are integers counting
//! billionths of an amplitude unit, so every computation here is exact and
//! fully specified.

pub mod errors;
pub mod kernel;
pub mod rational;
pub mod signal;
pub mod wave;

pub use errors::SignalError;
pub use kernel::Kernel;
pub use rational::Rat;
pub use signal::{CosSignal, Signal, SinSignal, Sinusoid, SumSignal, SumSinusoid};
pub use wave::Wave;
