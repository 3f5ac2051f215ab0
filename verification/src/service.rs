use vstd::prelude::*;

verus! {

/// The capability a store needs from its service: a monotonic time source.
///
/// `monotonic_time` returns a reading in nanoseconds from an arbitrary but
/// fixed origin. Successive readings should be non-decreasing; the store
/// stays correct even when they are not, since id issuance floors every
/// elapsed span at one nanosecond.
pub trait TimeService {
    /// The current monotonic reading, in nanoseconds from a fixed origin.
    fn monotonic_time(&mut self) -> u64;
}

} // verus!
