//! Asset-loading orchestration: a polling state machine that drives groups of
//! asynchronous asset loads ("collections") through named loading phases of an
//! application's global state machine, and requests the configured state
//! transition exactly once when every collection of the active phase has
//! finished loading.
//!
//! The asset engine itself (file reading, decoding, background workers) sits
//! outside this crate: the driver only decides which paths to load, records
//! the opaque handles the engine hands back, and consumes per-handle status
//! reports on every tick. The host runtime performs the actual loads and the
//! actual state switch-over.

use vstd::prelude::*;

mod collection;
mod config;
mod driver;
mod keys;
mod laws;
mod loader;

pub use collection::{
    first_missing, locator_paths, locator_resolvable, resolve_collection, resolve_ok,
    resolved_paths, AssetCollection, AssetLocator, MissingKey,
};
pub use config::{
    config_lookup, config_wf, count_loading, entries_wf, entry_wf, loading_one,
    AssetLoaderConfiguration, CollectionState, LoadingAssetHandles, LoadingConfiguration,
};
pub use driver::{
    all_loaded, begin_phase, check_loading_state, collection_count, count_loaded,
    count_loaded_statuses, get_collection, has_transitioned, is_finished, loaded_one,
    outstanding_count, pending_handles, post_process, start_loading, CheckOutcome, GlobalState,
    LoadState,
};
pub use keys::{merged, AssetKeys};
pub use laws::{
    abs, count_live, distinct_live, finish_fires, finish_step, lemma_abs_count_is_live_count,
    lemma_check_is_finish_step, lemma_no_second_transition, lemma_transition_exactly_once, run,
    PhaseModel,
};
pub use loader::AssetLoader;

verus! {

/// Labels for the three steps the driver runs for a loading phase, in the
/// order the host runtime must invoke them: start the loads when the phase is
/// entered, check the loading state once per tick, and post-process when the
/// phase is left.
#[derive(Debug, Clone, PartialEq, Eq, Hash)]
pub enum AssetLoading {
    /// Label given to the step initializing the asset loading on entry of the loading state
    StartLoading,
    /// Label given to the steps checking the loading state of all asset handles while the loading state is active
    CheckLoadingState,
    /// Label given to the steps building the finished collections on exit of the loading state
    PostProcess,
}

} // verus!
