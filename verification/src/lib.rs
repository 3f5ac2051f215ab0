//! A single-writer state container in the Redux style.
//!
//! An immutable state value is changed only through a pure reducer driven by
//! time-stamped actions; effect hooks run after each mutation and may request
//! further dispatches. The heart of the crate is the dispatch pipeline: the
//! action identity scheme ([`ActionId`]), the stamp/reduce/effect ordering,
//! and the store's lifecycle guarantees, all stated as contracts and proved.

mod action;
pub use action::{issue_next, ActionId, ActionWithMeta, EnablingCondition};

mod safety_condition;
pub use safety_condition::SafetyCondition;

mod service;
pub use service::TimeService;

mod reducer;
pub use reducer::chain_reducers;

mod semantics;
pub use semantics::{
    dispatch_run, dispatch_step, dispatch_step_with, ids_increase_to_cap, ids_strictly_increase,
    lemma_capped_ids_strictly_increase, lemma_depth_first, lemma_single_cycle, run_ids, step_at,
    StoreModel,
};

mod store;
pub use store::{StateWrapper, Store};
