use redux::{
    chain_reducers, ActionId, ActionWithMeta, EnablingCondition, SafetyCondition, StateWrapper,
    Store, TimeService,
};

struct FixedClock;

impl TimeService for FixedClock {
    fn monotonic_time(&mut self) -> u64 {
        1_234
    }
}

fn add_one(state: &i64, _action: &ActionWithMeta<u8>) -> i64 {
    state + 1
}

fn add_two(state: &i64, _action: &ActionWithMeta<u8>) -> i64 {
    state + 2
}

#[test]
fn chained_reducers_reach_three_from_zero() {
    let reducer = |state: &i64, action: &ActionWithMeta<u8>| -> i64 {
        chain_reducers(add_one, add_two, state, action)
    };
    let effects = |_state: &i64, _action: &ActionWithMeta<u8>| -> Vec<u8> { Vec::new() };
    let mut store = Store::new(reducer, effects, FixedClock, 0, 0i64);
    store.dispatch(7);
    assert_eq!(*store.state(), 3);
    store.dispatch(9);
    assert_eq!(*store.state(), 6);
}

#[test]
fn chained_reducers_apply_in_composition_order() {
    // With one additive and one doubling step the order is observable:
    // (0 + 1) * 2 == 2, while the other order would give 1.
    let double = |state: &i64, _action: &ActionWithMeta<u8>| -> i64 { state * 2 };
    let chained = chain_reducers(
        add_one,
        double,
        &0i64,
        &ActionWithMeta { id: ActionId::new_unchecked(1), action: 0u8 },
    );
    assert_eq!(chained, 2);
}

struct Door {
    open: bool,
}

enum DoorAction {
    Open,
    Close,
}

impl EnablingCondition for DoorAction {
    type State = Door;

    fn is_enabled(&self, state: &Self::State) -> bool {
        match self {
            DoorAction::Open => !state.open,
            DoorAction::Close => state.open,
        }
    }
}

#[test]
fn enabling_condition_checks_the_state() {
    let closed = Door { open: false };
    assert!(DoorAction::Open.is_enabled(&closed));
    assert!(!DoorAction::Close.is_enabled(&closed));
}

impl SafetyCondition for Door {
    type Error = String;
}

#[test]
fn safety_condition_default_accepts_every_state() {
    let door = Door { open: true };
    assert!(door.check_safety_condition().is_ok());
}

#[test]
fn state_wrapper_hands_out_the_state() {
    let reducer = |state: &i64, _action: &ActionWithMeta<u8>| -> i64 { *state };
    let effects = |_state: &i64, _action: &ActionWithMeta<u8>| -> Vec<u8> { Vec::new() };
    let store: Store<i64, FixedClock, u8, _, _> = Store::new(reducer, effects, FixedClock, 0, 41i64);
    let wrapper: &StateWrapper<i64> = &store.state;
    assert_eq!(*wrapper.get(), 41);
    assert_eq!(*store.state(), 41);
}

#[test]
fn saturated_store_stops_issuing_and_drops_actions() {
    let reducer = |state: &i64, action: &ActionWithMeta<u8>| -> i64 { add_one(state, action) };
    let effects = |_state: &i64, _action: &ActionWithMeta<u8>| -> Vec<u8> { Vec::new() };
    // One nanosecond below the cap: the first dispatch still runs and pins
    // the counter; after that the store refuses to issue and drops actions.
    let mut store = Store::new(reducer, effects, FixedClock, u64::MAX - 1, 0i64);
    store.dispatch(1);
    assert_eq!(*store.state(), 1);
    store.dispatch(2);
    assert_eq!(*store.state(), 1);
}
