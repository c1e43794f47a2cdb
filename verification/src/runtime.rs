//! The state the overlay keeps while it runs: its messages and its settings.

use vstd::prelude::*;
use crate::app_config::AppConfig;
use crate::store::MessageStore;
use crate::store_model::fresh_store;

verus! {

pub struct RuntimeState {
    pub store: MessageStore,
    pub config: AppConfig,
}

impl RuntimeState {
    /// The state at start-up: no messages yet, kept in a store sized by the
    /// settings.
    pub fn new(config: AppConfig) -> (r: Self)
        ensures
            r.store.wf(),
            r.store@ == fresh_store(config.main_capacity, config.per_user_capacity),
            r.config == config,
    {
        let store = MessageStore::new(config.main_capacity, config.per_user_capacity);
        RuntimeState { store, config }
    }
}

} // verus!
