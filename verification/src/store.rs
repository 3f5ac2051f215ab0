use core::marker::PhantomData;
use vstd::prelude::*;
use crate::action::{ActionId, ActionWithMeta};
use crate::semantics::{
    dispatch_run, dispatch_step, dispatch_step_with, ids_increase_to_cap, ids_strictly_increase,
    lemma_capped_ids_strictly_increase, run_ids, step_at, StoreModel,
};
use crate::service::TimeService;

verus! {

/// Wraps the state and hands out only immutable borrows, through
/// [`StateWrapper::get`]. The state mutates only inside the store's dispatch
/// cycle, where the reducer's result replaces it.
#[derive(Clone)]
pub struct StateWrapper<State> {
    inner: State,
}

impl<State> View for StateWrapper<State> {
    type V = State;

    closed spec fn view(&self) -> State {
        self.inner
    }
}

impl<State> StateWrapper<State> {
    /// An immutable borrow of the state.
    pub fn get(&self) -> (r: &State)
        ensures
            *r == self@,
    {
        &self.inner
    }
}

/// A container holding a state and providing the possibility to dispatch
/// actions.
///
/// The store owns the state, a reducer, an effect handler, a service (the
/// capability bag, minimally a time source) and the last issued id. One
/// `dispatch` call stamps the action with a fresh id, lets the reducer
/// replace the state, then runs the effect handler on the new state; the
/// follow-up actions the handler returns are dispatched in turn, depth
/// first, before `dispatch` returns.
#[verifier::reject_recursive_types(State)]
#[verifier::reject_recursive_types(Action)]
pub struct Store<State, Service, Action, R, E> where
    R: Fn(&State, &ActionWithMeta<Action>) -> State,
    E: Fn(&State, &ActionWithMeta<Action>) -> Vec<Action>,
 {
    reducer: R,
    effects: E,
    /// The current state. Immutable access through `state.get()`; mutation
    /// happens only inside `dispatch`.
    pub state: StateWrapper<State>,
    /// The capability bag handed in at construction.
    pub service: Service,
    monotonic_time: u64,
    last_action_id: ActionId,
    issued_ids: Ghost<Seq<u64>>,
    marker: PhantomData<Action>,
}

impl<State, Service, Action, R, E> Store<State, Service, Action, R, E> where
    Service: TimeService,
    R: Fn(&State, &ActionWithMeta<Action>) -> State,
    E: Fn(&State, &ActionWithMeta<Action>) -> Vec<Action>,
 {
    /// The reducer the store was built with.
    pub closed spec fn reducer_fn(&self) -> R {
        self.reducer
    }

    /// The effect handler the store was built with.
    pub closed spec fn effects_fn(&self) -> E {
        self.effects
    }

    /// Every id this store has issued, in order of issuance.
    pub closed spec fn issued(&self) -> Seq<u64> {
        self.issued_ids@
    }

    /// The store's snapshot at rest: the current state, the last issued id,
    /// and no pending actions.
    pub closed spec fn model(&self) -> StoreModel<State, Action> {
        StoreModel { state: self.state@, last_id: self.last_action_id@, pending: Seq::empty() }
    }

    /// Well-formedness: the reducer and the effect handler accept every
    /// state and stamped action, the issued ids grow strictly up to the
    /// cap, and the id counter sits at the last issued id.
    pub closed spec fn wf(&self) -> bool {
        &&& forall|s: &State, a: &ActionWithMeta<Action>| #[trigger] call_requires(
            self.reducer,
            (s, a),
        )
        &&& forall|s: &State, a: &ActionWithMeta<Action>| #[trigger] call_requires(
            self.effects,
            (s, a),
        )
        &&& ids_increase_to_cap(self.issued_ids@)
        &&& self.issued_ids@.len() > 0 ==> self.issued_ids@.last() == self.last_action_id@
    }

    /// A store at rest has nothing pending.
    pub proof fn lemma_at_rest(&self)
        ensures
            self.model().pending == Seq::<Action>::empty(),
    {
    }

    /// All ids a well-formed store has issued are strictly increasing, as
    /// long as the id counter has not pinned at `u64::MAX`.
    pub proof fn lemma_issued_ids_strictly_increase(&self)
        requires
            self.wf(),
            self.issued().len() == 0 || self.issued().last() < u64::MAX,
        ensures
            ids_strictly_increase(self.issued()),
    {
        lemma_capped_ids_strictly_increase(self.issued());
    }

    /// Creates a new store around an initial state.
    ///
    /// `initial_time_nanos` — nanoseconds from the fixed epoch — seeds the
    /// id counter; the service supplies the monotonic readings that advance
    /// it from there.
    pub fn new(
        reducer: R,
        effects: E,
        service: Service,
        initial_time_nanos: u64,
        initial_state: State,
    ) -> (store: Self)
        requires
            forall|s: &State, a: &ActionWithMeta<Action>| #[trigger] call_requires(
                reducer,
                (s, a),
            ),
            forall|s: &State, a: &ActionWithMeta<Action>| #[trigger] call_requires(
                effects,
                (s, a),
            ),
        ensures
            store.wf(),
            store.model() == (StoreModel::<State, Action> {
                state: initial_state,
                last_id: initial_time_nanos,
                pending: Seq::empty(),
            }),
            store.issued() == Seq::<u64>::empty(),
            store.reducer_fn() == reducer,
            store.effects_fn() == effects,
    {
        let mut service = service;
        let now = service.monotonic_time();
        Store {
            reducer,
            effects,
            state: StateWrapper { inner: initial_state },
            service,
            monotonic_time: now,
            last_action_id: ActionId::new_unchecked(initial_time_nanos),
            issued_ids: Ghost(Seq::empty()),
            marker: PhantomData,
        }
    }

    /// The current state.
    pub fn state(&self) -> (r: &State)
        ensures
            *r == self.model().state,
    {
        self.state.get()
    }

    /// Dispatches an action: the sole mutation path of the state.
    ///
    /// The action is stamped with a freshly issued id, the reducer replaces
    /// the state under that stamped action, and the effect handler runs on
    /// the post-reduction state with the very same stamped action. Follow-up
    /// actions the handler returns go through the same full cycle, depth
    /// first, before `dispatch` returns; each cycle issues a strictly
    /// greater id. The whole call is one [`dispatch_run`] from the old
    /// snapshot, with this action pending, to the new one.
    ///
    /// Every cycle consumes at least one nanosecond of the 64-bit id space,
    /// which bounds even an unboundedly re-dispatching cascade: in the
    /// corner — unreachable for centuries — where the id counter pins at
    /// `u64::MAX`, the store stops issuing and drops what is still pending.
    /// Before that cap, dispatch returns only with nothing left pending.
    pub fn dispatch(&mut self, action: Action)
        requires
            old(self).wf(),
        ensures
            final(self).wf(),
            final(self).reducer_fn() == old(self).reducer_fn(),
            final(self).effects_fn() == old(self).effects_fn(),
            exists|tr: Seq<StoreModel<State, Action>>|
                {
                    &&& #[trigger] dispatch_run(final(self).reducer_fn(), final(self).effects_fn(), tr)
                    &&& tr.first() == old(self).model().with_pending(seq![action])
                    &&& old(self).model().last_id < u64::MAX ==> tr.len() >= 2
                    &&& tr.last().pending.len() == 0 || tr.last().last_id == u64::MAX
                    &&& final(self).model() == tr.last().with_pending(Seq::empty())
                    &&& final(self).issued() == old(self).issued() + run_ids(tr)
                },
    {
        let ghost r = self.reducer;
        let ghost e = self.effects;
        let ghost issued0 = self.issued_ids@;
        let mut stack: Vec<Action> = Vec::new();
        stack.push(action);
        let ghost mut tr: Seq<StoreModel<State, Action>> = seq![
            StoreModel {
                state: self.state@,
                last_id: self.last_action_id@,
                pending: stack@,
            },
        ];
        proof {
            assert(run_ids(tr) =~= Seq::<u64>::empty());
            assert(self.issued_ids@ =~= issued0 + run_ids(tr));
        }
        while stack.len() != 0 && self.last_action_id.as_nanos() != u64::MAX
            invariant
                self.reducer == r,
                self.effects == e,
                forall|s: &State, a: &ActionWithMeta<Action>| #[trigger] call_requires(
                    r,
                    (s, a),
                ),
                forall|s: &State, a: &ActionWithMeta<Action>| #[trigger] call_requires(
                    e,
                    (s, a),
                ),
                dispatch_run(r, e, tr),
                tr.first() == (StoreModel {
                    state: old(self).state@,
                    last_id: old(self).last_action_id@,
                    pending: seq![action],
                }),
                tr.last() == (StoreModel {
                    state: self.state@,
                    last_id: self.last_action_id@,
                    pending: stack@,
                }),
                self.issued_ids@ == issued0 + run_ids(tr),
                ids_increase_to_cap(self.issued_ids@),
                self.issued_ids@.len() > 0 ==> self.issued_ids@.last()
                    == self.last_action_id@,
                issued0.len() > 0 ==> issued0.last() == old(self).last_action_id@,
                tr.len() == 1 ==> self.last_action_id@ == old(self).last_action_id@,
            decreases u64::MAX - self.last_action_id@,
        {
            let ghost pre = tr.last();
            let a = stack.pop().unwrap();
            let now = self.service.monotonic_time();
            let elapsed = if now >= self.monotonic_time {
                now - self.monotonic_time
            } else {
                0
            };
            self.monotonic_time = now;
            let next_id = self.last_action_id.next(elapsed);
            proof {
                let ids = self.issued_ids@;
                let ids2 = ids.push(next_id@);
                assert forall|i: int, j: int| 0 <= i < j < ids2.len() implies (ids2[i] < ids2[j]
                    || (ids2[i] == u64::MAX && ids2[j] == u64::MAX)) by {
                    if j < ids.len() {
                        assert(ids2[i] == ids[i] && ids2[j] == ids[j]);
                    } else {
                        assert(ids2[j] == next_id@);
                        if i < ids.len() - 1 {
                            assert(ids[i] < ids.last() || (ids[i] == u64::MAX && ids.last()
                                == u64::MAX));
                        }
                    }
                }
            }
            self.last_action_id = next_id;
            self.issued_ids = Ghost(self.issued_ids@.push(next_id.view()));
            let stamped = ActionWithMeta { id: next_id, action: a };
            let new_state = (self.reducer)(&self.state.inner, &stamped);
            self.state.inner = new_state;
            let mut follow = (self.effects)(&self.state.inner, &stamped);
            let ghost follow_vec = follow;
            let ghost follow0 = follow@;
            let ghost base = stack@;
            while follow.len() != 0
                invariant
                    follow@.len() <= follow0.len(),
                    follow@ == follow0.take(follow@.len() as int),
                    stack@.len() == base.len() + follow0.len() - follow@.len(),
                    forall|t: int| 0 <= t < base.len() ==> #[trigger] stack@[t] == base[t],
                    forall|t: int|
                        base.len() <= t < stack@.len() ==> #[trigger] stack@[t] == follow0[
                            follow0.len() - 1 - (t - base.len())],
                decreases follow@.len(),
            {
                let ghost stack_prev = stack@;
                let ghost follow_prev = follow@;
                let x = follow.pop().unwrap();
                stack.push(x);
                proof {
                    assert(follow@ =~= follow0.take(follow@.len() as int));
                    assert(stack@ =~= stack_prev.push(follow_prev.last()));
                    assert forall|t: int| 0 <= t < base.len() implies #[trigger] stack@[t]
                        == base[t] by {
                        assert(stack@[t] == stack_prev[t]);
                    }
                    assert forall|t: int|
                        base.len() <= t < stack@.len() implies #[trigger] stack@[t] == follow0[
                        follow0.len() - 1 - (t - base.len())] by {
                        if t < stack@.len() - 1 {
                            assert(stack@[t] == stack_prev[t]);
                        } else {
                            assert(stack@[t] == follow_prev.last());
                            assert(follow_prev.last() == follow0[follow_prev.len() - 1]);
                        }
                    }
                }
            }
            proof {
                let post = StoreModel {
                    state: self.state@,
                    last_id: self.last_action_id@,
                    pending: stack@,
                };
                assert(stack@ =~= pre.pending.drop_last() + follow0.reverse());
                assert(dispatch_step_with(r, e, pre, post, elapsed, stamped, follow_vec));
                assert(dispatch_step(r, e, pre, post));
                let tr2 = tr.push(post);
                assert forall|i: int| 0 <= i < tr2.len() - 1 implies #[trigger] step_at(
                    r,
                    e,
                    tr2,
                    i,
                ) by {
                    if i < tr.len() - 1 {
                        assert(step_at(r, e, tr, i));
                        assert(tr2[i] == tr[i] && tr2[i + 1] == tr[i + 1]);
                    } else {
                        assert(tr2[i] == pre && tr2[i + 1] == post);
                    }
                }
                assert(run_ids(tr2) =~= run_ids(tr).push(post.last_id));
                tr = tr2;
                assert(self.issued_ids@ =~= issued0 + run_ids(tr));
            }
        }
        proof {
            assert(dispatch_run(self.reducer_fn(), self.effects_fn(), tr));
            assert(tr.last().pending.len() == 0 || tr.last().last_id == u64::MAX);
            assert(self.model() =~= tr.last().with_pending(Seq::empty()));
            assert(tr.first() =~= old(self).model().with_pending(seq![action]));
        }
    }
}

} // verus!
