//! Scopes for timing, which cost nothing unless timing is built in.
use vstd::prelude::*;

verus! {

/// A scope that is being timed. Timing is not built in: the guard holds
/// nothing and its end measures nothing.
#[derive(Debug, Clone, Copy, PartialEq, Eq, Structural)]
pub struct PerfGuard;

/// Opens a timed scope named `label`.
#[inline]
pub fn scope(_label: &'static str) -> (g: PerfGuard)
    ensures
        g == PerfGuard,
{
    PerfGuard
}

} // verus!
