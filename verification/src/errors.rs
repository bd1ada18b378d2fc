//! Domain errors of the signal library.

use vstd::prelude::*;

verus! {

/// A domain error raised by the core signal operations.
///
/// No operation recovers from one of these locally; each is surfaced to the
/// caller as a typed failure instead of a silently non-finite value.
#[derive(Clone, Copy, Debug, PartialEq, Eq, Structural)]
pub enum SignalError {
    /// A sinusoid was constructed with frequency zero, which would make its
    /// period a division by zero.
    InvalidFrequency,
    /// `normalize` was requested on a wave whose samples are all zero, so no
    /// common rescaling factor exists.
    EmptySignalNormalize,
    /// Elementwise composition was invoked on sample sequences of unequal
    /// length.
    LengthMismatch,
}

} // verus!
