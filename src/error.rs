use vstd::prelude::*;

verus! {

/// The conditions on which an invocation fails; none of them leaves a
/// balance changed.
#[derive(Debug, Clone, Copy, PartialEq, Eq, Structural)]
pub enum StakeError {
    /// Fewer than two accounts were supplied.
    MissingAccount,
    /// The host could not supply the clock.
    ClockUnavailable,
    /// An intermediate value does not fit in 64 bits.
    Overflow,
    /// The stake account holds less than the reward to be paid.
    InsufficientBalance,
}

} // verus!
