use vstd::prelude::*;
use crate::action::ActionWithMeta;

verus! {

/// Applies `first` and then `second` to the state, both seeing the same
/// stamped action: the hand-written form of chaining two reducers. Order is
/// fixed at composition time: `second` always sees the state `first`
/// produced.
pub fn chain_reducers<State, Action, R1, R2>(
    first: R1,
    second: R2,
    state: &State,
    action: &ActionWithMeta<Action>,
) -> (r: State) where
    R1: Fn(&State, &ActionWithMeta<Action>) -> State,
    R2: Fn(&State, &ActionWithMeta<Action>) -> State,

    requires
        call_requires(first, (state, action)),
        forall|s: &State| #[trigger] call_requires(second, (s, action)),
    ensures
        exists|mid: State|
            {
                &&& #[trigger] call_ensures(first, (state, action), mid)
                &&& call_ensures(second, (&mid, action), r)
            },
{
    let mid = first(state, action);
    second(&mid, action)
}

} // verus!
