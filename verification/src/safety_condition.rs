use vstd::prelude::*;

verus! {

/// Safety condition for a state: checks that the state is valid.
/// Implemented by the caller's state types.
pub trait SafetyCondition {
    type Error;

    /// Checks whether the safety conditions hold for this state; the
    /// default accepts every state.
    fn check_safety_condition(&self) -> Result<(), Self::Error> {
        Ok(())
    }
}

} // verus!
