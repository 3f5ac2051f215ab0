use vstd::prelude::*;

verus! {

/// Time in nanoseconds from a fixed epoch, used as the identity of one
/// dispatched action.
///
/// Each action a store dispatches carries a unique id. If two actions happen
/// at the same instant, the id of the second is still advanced by at least 1,
/// so ids issued by one store are strictly increasing. A `u64` holds
/// nanoseconds for roughly 584 years past the epoch; the id pins at
/// `u64::MAX` only once that span is exhausted.
#[derive(Debug, PartialEq, Eq, Structural, PartialOrd, Ord, Clone, Copy, Hash)]
pub struct ActionId(u64);

impl View for ActionId {
    type V = u64;

    closed spec fn view(&self) -> u64 {
        self.0
    }
}

/// What one issuance step does to the id counter: advance by the elapsed
/// nanoseconds, but by at least 1, pinning at `u64::MAX` once the 64-bit
/// nanosecond space is exhausted.
pub open spec fn issue_next(prev: u64, elapsed: u64) -> u64 {
    let step: u64 = if elapsed == 0 { 1 } else { elapsed };
    if prev + step <= u64::MAX {
        (prev + step) as u64
    } else {
        u64::MAX
    }
}

impl ActionId {
    /// Wraps a raw nanosecond value as an id, bypassing the store's issuance
    /// path. The caller is responsible for the uniqueness of such an id.
    pub fn new_unchecked(value: u64) -> (r: Self)
        ensures
            r@ == value,
    {
        Self(value)
    }

    /// The raw nanosecond value of this id.
    pub fn as_nanos(&self) -> (r: u64)
        ensures
            r == self@,
    {
        self.0
    }

    /// The id for the next dispatched action, given the nanoseconds elapsed
    /// since the previous one: strictly greater than `self` even when the
    /// clock stalled (`time_passed == 0`), until the counter pins at
    /// `u64::MAX`.
    pub fn next(&self, time_passed: u64) -> (r: Self)
        ensures
            r@ == issue_next(self@, time_passed),
            self@ < r@ || (self@ == u64::MAX && r@ == u64::MAX),
    {
        let step: u64 = if time_passed == 0 { 1 } else { time_passed };
        if self.0 <= u64::MAX - step {
            Self(self.0 + step)
        } else {
            Self(u64::MAX)
        }
    }

    /// Nanoseconds from `other` to `self`, saturating: whenever `self`'s
    /// numeric value is at most `other`'s, the result is 0, never an error
    /// or a negative duration.
    pub fn duration_since(&self, other: ActionId) -> (r: u64)
        ensures
            r == if self@ >= other@ { self@ - other@ } else { 0 },
    {
        if self.0 >= other.0 {
            self.0 - other.0
        } else {
            0
        }
    }
}

/// An action paired with the metadata the store stamped it with: its id.
#[derive(Debug, Clone)]
pub struct ActionWithMeta<Action> {
    pub id: ActionId,
    pub action: Action,
}

impl<Action> ActionWithMeta<Action> {
    /// The nanoseconds from the epoch to the instant this action was
    /// stamped, which is exactly its id.
    pub fn time_as_nanos(&self) -> (r: u64)
        ensures
            r == self.id@,
    {
        self.id.as_nanos()
    }

    /// Nanoseconds from the epoch to this action's stamp.
    pub fn duration_since_epoch(&self) -> (r: u64)
        ensures
            r == self.id@,
    {
        self.time_as_nanos()
    }

    /// Nanoseconds from `other`'s stamp to this action's, saturating at 0
    /// when `other` was stamped later.
    pub fn duration_since(&self, other: &ActionWithMeta<Action>) -> (r: u64)
        ensures
            r == if self.id@ >= other.id@ { self.id@ - other.id@ } else { 0 },
    {
        self.id.duration_since(other.id)
    }
}

/// Enabling condition for an action: checks whether the action makes sense
/// for a given state. Implemented by the caller's action types.
pub trait EnablingCondition {
    type State;

    /// Whether this action is enabled in `state`.
    fn is_enabled(&self, state: &Self::State) -> bool;
}

} // verus!
