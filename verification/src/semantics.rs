use vstd::prelude::*;
use crate::action::{issue_next, ActionWithMeta};

verus! {

/// A snapshot of a store in the middle of a dispatch cycle: the state so
/// far, the last issued id, and the actions still pending. `pending` is a
/// stack: its last element is the next action to be stamped and run, so a
/// follow-up pushed by an effect runs before anything that sat below it —
/// the depth-first order of re-entrant dispatch.
#[verifier::ext_equal]
pub struct StoreModel<State, Action> {
    pub state: State,
    pub last_id: u64,
    pub pending: Seq<Action>,
}

impl<State, Action> StoreModel<State, Action> {
    /// The same snapshot with `pending` replaced.
    pub open spec fn with_pending(self, pending: Seq<Action>) -> StoreModel<State, Action> {
        StoreModel { state: self.state, last_id: self.last_id, pending }
    }
}

/// One dispatch cycle, with its witnesses spelled out: the pending action on
/// top of the stack is stamped with the id issued for `elapsed` nanoseconds,
/// the reducer relates the old state to the new one under that stamped
/// action, the effect — run on the post-reduction state and the same stamped
/// action — yields the follow-up actions, and those replace the consumed
/// action on top of the stack, first follow-up uppermost.
pub open spec fn dispatch_step_with<State, Action, R, E>(
    r: R,
    e: E,
    pre: StoreModel<State, Action>,
    post: StoreModel<State, Action>,
    elapsed: u64,
    stamped: ActionWithMeta<Action>,
    follow: Vec<Action>,
) -> bool where
    R: Fn(&State, &ActionWithMeta<Action>) -> State,
    E: Fn(&State, &ActionWithMeta<Action>) -> Vec<Action>,
 {
    &&& pre.pending.len() > 0
    &&& stamped.action == pre.pending.last()
    &&& stamped.id@ == issue_next(pre.last_id, elapsed)
    &&& call_ensures(r, (&pre.state, &stamped), post.state)
    &&& call_ensures(e, (&post.state, &stamped), follow)
    &&& post.last_id == stamped.id@
    &&& post.pending == pre.pending.drop_last() + follow@.reverse()
}

/// One dispatch cycle between two snapshots, for some elapsed time, stamped
/// action and follow-up list.
pub open spec fn dispatch_step<State, Action, R, E>(
    r: R,
    e: E,
    pre: StoreModel<State, Action>,
    post: StoreModel<State, Action>,
) -> bool where
    R: Fn(&State, &ActionWithMeta<Action>) -> State,
    E: Fn(&State, &ActionWithMeta<Action>) -> Vec<Action>,
 {
    exists|elapsed: u64, stamped: ActionWithMeta<Action>, follow: Vec<Action>|
        dispatch_step_with(r, e, pre, post, elapsed, stamped, follow)
}

/// The cycle a run takes between its `i`th and `i + 1`th snapshots.
pub open spec fn step_at<State, Action, R, E>(
    r: R,
    e: E,
    tr: Seq<StoreModel<State, Action>>,
    i: int,
) -> bool where
    R: Fn(&State, &ActionWithMeta<Action>) -> State,
    E: Fn(&State, &ActionWithMeta<Action>) -> Vec<Action>,
 {
    dispatch_step(r, e, tr[i], tr[i + 1])
}

/// A run of the dispatch loop: a nonempty chain of snapshots where each
/// adjacent pair is one dispatch cycle.
pub open spec fn dispatch_run<State, Action, R, E>(
    r: R,
    e: E,
    tr: Seq<StoreModel<State, Action>>,
) -> bool where
    R: Fn(&State, &ActionWithMeta<Action>) -> State,
    E: Fn(&State, &ActionWithMeta<Action>) -> Vec<Action>,
 {
    &&& tr.len() >= 1
    &&& forall|i: int| 0 <= i < tr.len() - 1 ==> #[trigger] step_at(r, e, tr, i)
}

/// The ids issued along a run, one per cycle, in order.
pub open spec fn run_ids<State, Action>(tr: Seq<StoreModel<State, Action>>) -> Seq<u64> {
    if tr.len() == 0 {
        Seq::empty()
    } else {
        Seq::new((tr.len() - 1) as nat, |i: int| tr[i + 1].last_id)
    }
}

/// Strict monotonicity of a sequence of ids.
pub open spec fn ids_strictly_increase(ids: Seq<u64>) -> bool {
    forall|i: int, j: int| 0 <= i < j < ids.len() ==> ids[i] < ids[j]
}

/// Monotonicity of a sequence of ids up to the cap: later ids are strictly
/// greater until the counter pins at `u64::MAX`, where it stays.
pub open spec fn ids_increase_to_cap(ids: Seq<u64>) -> bool {
    forall|i: int, j: int|
        0 <= i < j < ids.len() ==> (ids[i] < ids[j] || (ids[i] == u64::MAX && ids[j]
            == u64::MAX))
}

/// Ids that increase up to the cap and never reach it increase strictly.
pub proof fn lemma_capped_ids_strictly_increase(ids: Seq<u64>)
    requires
        ids_increase_to_cap(ids),
        ids.len() == 0 || ids.last() < u64::MAX,
    ensures
        ids_strictly_increase(ids),
{
    assert forall|i: int, j: int| 0 <= i < j < ids.len() implies ids[i] < ids[j] by {
        if ids[i] == u64::MAX {
            assert(j <= ids.len() - 1);
            if j < ids.len() - 1 {
                assert(ids[j] == u64::MAX && ids[ids.len() - 1] == u64::MAX);
            }
            assert(false);
        }
    }
}

/// After one dispatch of a single action whose effect yields no follow-ups,
/// the run is exactly one cycle long: the state reflects exactly the
/// reducer applied to the starting state and a freshly stamped action, and
/// the effect was related to that same stamped action, on the
/// post-reduction state, exactly once.
pub proof fn lemma_single_cycle<State, Action, R, E>(
    r: R,
    e: E,
    tr: Seq<StoreModel<State, Action>>,
) where
    R: Fn(&State, &ActionWithMeta<Action>) -> State,
    E: Fn(&State, &ActionWithMeta<Action>) -> Vec<Action>,

    requires
        dispatch_run(r, e, tr),
        tr.first().pending.len() == 1,
        tr.len() >= 2,
        forall|s: &State, a: &ActionWithMeta<Action>, f: Vec<Action>|
            #[trigger] call_ensures(e, (s, a), f) ==> f@.len() == 0,
    ensures
        tr.len() == 2,
        tr.last().pending.len() == 0,
        exists|stamped: ActionWithMeta<Action>, follow: Vec<Action>|
            {
                &&& stamped.action == tr.first().pending[0]
                &&& (tr.first().last_id < stamped.id@ || (tr.first().last_id == u64::MAX
                    && stamped.id@ == u64::MAX))
                &&& stamped.id@ == tr.last().last_id
                &&& call_ensures(r, (&tr.first().state, &stamped), tr.last().state)
                &&& #[trigger] call_ensures(e, (&tr.last().state, &stamped), follow)
            },
{
    assert(step_at(r, e, tr, 0));
    let (elapsed, stamped, follow): (u64, ActionWithMeta<Action>, Vec<Action>) = choose|
        elapsed: u64,
        stamped: ActionWithMeta<Action>,
        follow: Vec<Action>,
    | #[trigger] dispatch_step_with(r, e, tr[0], tr[1], elapsed, stamped, follow);
    assert(follow@.len() == 0);
    assert(tr[1].pending =~= Seq::<Action>::empty());
    if tr.len() > 2 {
        assert(step_at(r, e, tr, 1));
        assert(false);
    }
    assert(tr[1] == tr.last());
    assert(stamped.action == tr.first().pending[0]);
}

/// The depth-first guarantee: take any snapshot of a completed run and any
/// prefix `rest` of its pending stack. Everything above `rest` runs to
/// completion — the stack returns to exactly `rest` — before any action in
/// `rest` is stamped or run; until that moment `rest` stays untouched at
/// the bottom of the stack. The returned index is that first moment.
pub proof fn lemma_depth_first<State, Action, R, E>(
    r: R,
    e: E,
    tr: Seq<StoreModel<State, Action>>,
    i: int,
    rest: Seq<Action>,
) -> (m: int) where
    R: Fn(&State, &ActionWithMeta<Action>) -> State,
    E: Fn(&State, &ActionWithMeta<Action>) -> Vec<Action>,

    requires
        dispatch_run(r, e, tr),
        tr.last().pending.len() == 0,
        0 <= i < tr.len(),
        tr[i].pending.len() >= rest.len(),
        tr[i].pending.take(rest.len() as int) == rest,
    ensures
        i <= m < tr.len(),
        tr[m].pending == rest,
        forall|l: int|
            i <= l < m ==> (#[trigger] tr[l].pending.len()) > rest.len() && tr[l].pending.take(
                rest.len() as int,
            ) == rest,
    decreases tr.len() - i,
{
    if tr[i].pending.len() == rest.len() {
        assert(tr[i].pending =~= rest);
        i
    } else {
        assert(tr[i].pending.len() > rest.len());
        assert(i < tr.len() - 1);
        assert(step_at(r, e, tr, i));
        let (elapsed, stamped, follow): (u64, ActionWithMeta<Action>, Vec<Action>) = choose|
            elapsed: u64,
            stamped: ActionWithMeta<Action>,
            follow: Vec<Action>,
        | #[trigger] dispatch_step_with(r, e, tr[i], tr[i + 1], elapsed, stamped, follow);
        assert(tr[i + 1].pending.take(rest.len() as int) =~= rest);
        assert(tr[i + 1].pending.len() >= rest.len());
        lemma_depth_first(r, e, tr, i + 1, rest)
    }
}

} // verus!
