//! The loading driver: the start / poll / finish lifecycle run once per tick
//! by the host runtime. It owns the exactly-once transition decision: when
//! the active phase's outstanding-collection count first reaches zero, the
//! configured next state is requested, and never a second time within the
//! same phase activation.

use vstd::prelude::*;

use crate::config::{
    config_lookup, config_wf, count_loading, entry_wf, AssetLoaderConfiguration, CollectionState,
    LoadingAssetHandles,
};

verus! {

/// Per-handle status reported by the asset engine's oracle. A failed load
/// is treated exactly like one still in progress: it never contributes to
/// completion, so a stalled handle stalls its collection forever.
#[derive(Debug, Clone, Copy, PartialEq, Eq, Structural)]
pub enum LoadState {
    /// The engine is still working on the asset (or has not begun).
    Loading,
    /// The asset is fully loaded and its final value can be read.
    Loaded,
    /// The engine gave up on the asset; the handle will never become loaded.
    Failed,
}

/// The application's global state machine, as far as the driver sees it: the
/// externally owned current value, and the slot through which the driver may
/// request the next value. The owning runtime performs the actual
/// switch-over.
pub struct GlobalState {
    /// The state the application is currently in.
    pub current: u64,
    /// The state the driver has asked the runtime to switch to, if any.
    pub requested: Option<u64>,
}

impl GlobalState {
    /// A state machine resting in `initial` with no transition requested.
    pub fn new(initial: u64) -> (r: GlobalState)
        ensures
            r.current == initial,
            r.requested is None,
    {
        GlobalState { current: initial, requested: None }
    }

    /// The current state value.
    pub fn current(&self) -> (r: u64)
        ensures
            r == self.current,
    {
        self.current
    }

    /// Request a transition: the runtime will switch the current value over
    /// on its next opportunity.
    pub fn request_transition(&mut self, next: u64)
        ensures
            final(self).current == old(self).current,
            final(self).requested == Some(next),
    {
        self.requested = Some(next);
    }

    /// The runtime's switch-over: make the requested state current, if one
    /// was requested, and clear the request slot.
    pub fn advance(&mut self) -> (r: Option<u64>)
        ensures
            r == old(self).requested,
            match old(self).requested {
                Some(n) => final(self).current == n && final(self).requested is None,
                None => *final(self) == *old(self),
            },
    {
        let r = self.requested;
        if let Some(n) = self.requested {
            self.current = n;
            self.requested = None;
        }
        r
    }
}

/// What one poll of one collection found, handed back to the host runtime
/// (for example to feed a progress-reporting collaborator).
#[derive(Debug, Clone, Copy, PartialEq, Eq)]
pub enum CheckOutcome {
    /// The collection has no live tracker in the polled phase: nothing to do.
    Idle,
    /// Some handles are still pending: `done` of `total` have loaded.
    InProgress { done: usize, total: usize },
    /// Every handle has loaded: the collection finished on this poll.
    Finished { total: usize },
}

/// How much one status contributes to the loaded count.
pub open spec fn loaded_one(s: LoadState) -> nat {
    if s is Loaded {
        1nat
    } else {
        0nat
    }
}

/// Number of handles whose status is loaded.
pub open spec fn count_loaded(statuses: Seq<LoadState>) -> nat
    decreases statuses.len(),
{
    if statuses.len() == 0 {
        0nat
    } else {
        count_loaded(statuses.drop_last()) + loaded_one(statuses.last())
    }
}

/// Whether every handle of a tracker has loaded.
pub open spec fn all_loaded(statuses: Seq<LoadState>) -> bool {
    forall|j: int| 0 <= j < statuses.len() ==> statuses[j] is Loaded
}

pub proof fn lemma_count_loaded_le_len(statuses: Seq<LoadState>)
    ensures
        count_loaded(statuses) <= statuses.len(),
    decreases statuses.len(),
{
    if statuses.len() > 0 {
        lemma_count_loaded_le_len(statuses.drop_last());
    }
}

/// The loaded count reaches the total exactly when every handle has loaded.
pub proof fn lemma_count_loaded_all(statuses: Seq<LoadState>)
    ensures
        count_loaded(statuses) == statuses.len() <==> all_loaded(statuses),
    decreases statuses.len(),
{
    if statuses.len() > 0 {
        lemma_count_loaded_le_len(statuses.drop_last());
        lemma_count_loaded_all(statuses.drop_last());
        assert(forall|j: int|
            0 <= j < statuses.len() - 1 ==> statuses[j] == statuses.drop_last()[j]);
        if all_loaded(statuses) {
            assert(all_loaded(statuses.drop_last()));
        }
    }
}

/// Count the handles a status snapshot reports loaded.
pub fn count_loaded_statuses(statuses: &Vec<LoadState>) -> (r: usize)
    ensures
        r == count_loaded(statuses@),
{
    let mut r: usize = 0;
    let mut i: usize = 0;
    proof {
        assert(statuses@.take(0) =~= Seq::<LoadState>::empty());
    }
    while i < statuses.len()
        invariant
            i <= statuses@.len(),
            r == count_loaded(statuses@.take(i as int)),
        decreases statuses@.len() - i,
    {
        proof {
            assert(statuses@.take(i + 1).drop_last() =~= statuses@.take(i as int));
            assert(statuses@.take(i + 1).last() == statuses@[i as int]);
            lemma_count_loaded_le_len(statuses@.take(i as int));
        }
        if matches!(statuses[i], LoadState::Loaded) {
            r = r + 1;
        }
        i = i + 1;
    }
    proof {
        assert(statuses@.take(statuses@.len() as int) =~= statuses@);
    }
    r
}

/// On phase entry: reset the phase's activation state. Every attached
/// collection is back to not started, the outstanding count is zero, and no
/// transition has been requested in this activation. Configuration (next
/// state, collections, initializers) and all other phases are untouched.
pub fn begin_phase(config: &mut AssetLoaderConfiguration, phase: u64)
    requires
        config_wf(*old(config)),
        config_lookup(old(config).entries@, phase) is Some,
    ensures
        config_wf(*final(config)),
        config_lookup(final(config).entries@, phase) is Some,
        ({
            let e_old = config_lookup(old(config).entries@, phase)->0;
            let e_new = config_lookup(final(config).entries@, phase)->0;
            &&& e_new.next == e_old.next
            &&& e_new.collections@ == e_old.collections@
            &&& e_new.initializers@ == e_old.initializers@
            &&& e_new.count == 0
            &&& e_new.transitioned == false
            &&& e_new.states@.len() == e_new.collections@.len()
            &&& forall|j: int|
                0 <= j < e_new.states@.len() ==> (#[trigger] e_new.states@[j]) is NotStarted
        }),
        forall|q: u64|
            q != phase ==> config_lookup(final(config).entries@, q) == config_lookup(
                old(config).entries@,
                q,
            ),
{
    let ghost old_entries = config.entries@;
    let i = match config.find_entry(phase) {
        Some(i) => i,
        None => {
            return;
        },
    };
    let mut pe = config.entries.remove(i);
    let n = pe.1.collections.len();
    let mut states: Vec<CollectionState> = Vec::new();
    while states.len() < n
        invariant
            states@.len() <= n,
            count_loading(states@) == 0,
            forall|j: int| 0 <= j < states@.len() ==> (#[trigger] states@[j]) is NotStarted,
        decreases n - states@.len(),
    {
        let ghost prev = states@;
        states.push(CollectionState::NotStarted);
        proof {
            assert(states@.drop_last() =~= prev);
            assert(states@.last() is NotStarted);
        }
    }
    pe.1.states = states;
    pe.1.count = 0;
    pe.1.transitioned = false;
    let ghost pe_ghost = pe;
    config.entries.insert(i, pe);
    proof {
        assert(config.entries@ =~= old_entries.update(i as int, pe_ghost));
        assert forall|q: u64|
            config_lookup(config.entries@, q) == (if q == phase {
                Some(pe_ghost.1)
            } else {
                config_lookup(old_entries, q)
            }) by {
            crate::config::lemma_config_lookup_replace(old_entries, i as int, pe_ghost, q);
        }
        assert forall|j: int| 0 <= j < config.entries@.len() implies entry_wf(
            (#[trigger] config.entries@[j]).1,
        ) by {
            if j != i {
                assert(config.entries@[j] == old_entries[j]);
                assert(entry_wf(old_entries[j].1));
            }
        }
    }
}

/// On phase entry, once per attached collection: record the engine handles
/// the collection's load-start issued, and count the collection as
/// outstanding. A collection can be started at most once per activation.
pub fn start_loading(
    config: &mut AssetLoaderConfiguration,
    phase: u64,
    index: usize,
    handles: Vec<u64>,
)
    requires
        config_wf(*old(config)),
        config_lookup(old(config).entries@, phase) is Some,
        index < (config_lookup(old(config).entries@, phase)->0).states@.len(),
        (config_lookup(old(config).entries@, phase)->0).states@[index as int] is NotStarted,
    ensures
        config_wf(*final(config)),
        config_lookup(final(config).entries@, phase) is Some,
        ({
            let e_old = config_lookup(old(config).entries@, phase)->0;
            let e_new = config_lookup(final(config).entries@, phase)->0;
            &&& e_new.next == e_old.next
            &&& e_new.collections@ == e_old.collections@
            &&& e_new.initializers@ == e_old.initializers@
            &&& e_new.transitioned == e_old.transitioned
            &&& e_new.count == e_old.count + 1
            &&& e_new.states@ == e_old.states@.update(
                index as int,
                CollectionState::Loading(LoadingAssetHandles { handles }),
            )
        }),
        forall|q: u64|
            q != phase ==> config_lookup(final(config).entries@, q) == config_lookup(
                old(config).entries@,
                q,
            ),
{
    let ghost old_entries = config.entries@;
    let i = match config.find_entry(phase) {
        Some(i) => i,
        None => {
            return;
        },
    };
    proof {
        crate::config::lemma_config_lookup_wf(old_entries, phase);
    }
    let mut pe = config.entries.remove(i);
    let ghost old_states = pe.1.states@;
    let ghost new_state = CollectionState::Loading(LoadingAssetHandles { handles: handles });
    proof {
        assert(pe == old_entries[i as int]);
        assert(entry_wf(old_entries[i as int].1));
        assert(pe.1.count == count_loading(old_states));
    }
    pe.1.states.set(index, CollectionState::Loading(LoadingAssetHandles { handles }));
    proof {
        assert(pe.1.count == count_loading(old_states));
        crate::config::lemma_count_loading_update(old_states, index as int, new_state);
        crate::config::lemma_count_loading_le_len(pe.1.states@);
        assert(count_loading(pe.1.states@) == count_loading(old_states) + 1);
        assert(count_loading(old_states) + 1 <= pe.1.states@.len());
    }
    let states_len = pe.1.states.len();
    proof {
        assert(pe.1.count < states_len);
    }
    pe.1.count = pe.1.count + 1;
    let ghost pe_ghost = pe;
    config.entries.insert(i, pe);
    proof {
        assert(config.entries@ =~= old_entries.update(i as int, pe_ghost));
        assert forall|q: u64|
            config_lookup(config.entries@, q) == (if q == phase {
                Some(pe_ghost.1)
            } else {
                config_lookup(old_entries, q)
            }) by {
            crate::config::lemma_config_lookup_replace(old_entries, i as int, pe_ghost, q);
        }
        assert forall|j: int| 0 <= j < config.entries@.len() implies entry_wf(
            (#[trigger] config.entries@[j]).1,
        ) by {
            if j != i {
                assert(config.entries@[j] == old_entries[j]);
                assert(entry_wf(old_entries[j].1));
            }
        }
    }
}

/// One poll of one collection of the active phase, with the engine's status
/// snapshot for the collection's handles (in handle order).
///
/// A collection without a live tracker is left alone and nothing else
/// changes. While any handle is unloaded, nothing changes either and the
/// partial count is reported. Once every handle has loaded, the collection
/// is finished: its tracker is removed, the outstanding count drops by one,
/// and if it thereby first reaches zero with a configured next state, that
/// transition is requested — exactly once per activation.
pub fn check_loading_state(
    config: &mut AssetLoaderConfiguration,
    state: &mut GlobalState,
    index: usize,
    statuses: &Vec<LoadState>,
) -> (r: CheckOutcome)
    requires
        config_wf(*old(config)),
        config_lookup(old(config).entries@, old(state).current) is Some,
        index < (config_lookup(old(config).entries@, old(state).current)->0).states@.len(),
        ((config_lookup(old(config).entries@, old(state).current)->0).states@[index as int]
            matches CollectionState::Loading(t) ==> statuses@.len() == t.handles@.len()),
    ensures
        config_wf(*final(config)),
        final(state).current == old(state).current,
        config_lookup(final(config).entries@, old(state).current) is Some,
        forall|q: u64|
            q != old(state).current ==> config_lookup(final(config).entries@, q) == config_lookup(
                old(config).entries@,
                q,
            ),
        ({
            let e_old = config_lookup(old(config).entries@, old(state).current)->0;
            let e_new = config_lookup(final(config).entries@, old(state).current)->0;
            let fires = e_old.count == 1 && e_old.next is Some && !e_old.transitioned;
            &&& (!(e_old.states@[index as int] is Loading) ==> *final(config) == *old(config)
                && *final(state) == *old(state) && r is Idle)
            &&& (e_old.states@[index as int] is Loading && !all_loaded(statuses@)
                ==> *final(config) == *old(config) && *final(state) == *old(state)
                && r == (CheckOutcome::InProgress {
                    done: count_loaded(statuses@) as usize,
                    total: statuses@.len() as usize,
                }))
            &&& (e_old.states@[index as int] is Loading && all_loaded(statuses@) ==> {
                &&& e_new.states@ == e_old.states@.update(index as int, CollectionState::Finished)
                &&& e_new.count == e_old.count - 1
                &&& e_new.next == e_old.next
                &&& e_new.collections@ == e_old.collections@
                &&& e_new.initializers@ == e_old.initializers@
                &&& e_new.transitioned == (e_old.transitioned || fires)
                &&& final(state).requested == (if fires {
                    e_old.next
                } else {
                    old(state).requested
                })
                &&& r == (CheckOutcome::Finished { total: statuses@.len() as usize })
            })
        }),
{
    let phase = state.current();
    let ghost old_entries = config.entries@;
    let done = count_loaded_statuses(statuses);
    let total = statuses.len();
    let i = match config.find_entry(phase) {
        Some(i) => i,
        None => {
            return CheckOutcome::Idle;
        },
    };
    proof {
        crate::config::lemma_config_lookup_wf(old_entries, phase);
        lemma_count_loaded_all(statuses@);
        lemma_count_loaded_le_len(statuses@);
    }
    let live = matches!(&config.entries[i].1.states[index], CollectionState::Loading(_));
    if !live {
        return CheckOutcome::Idle;
    }
    if done < total {
        return CheckOutcome::InProgress { done, total };
    }
    let mut pe = config.entries.remove(i);
    let ghost old_states = pe.1.states@;
    pe.1.states.set(index, CollectionState::Finished);
    proof {
        crate::config::lemma_count_loading_update(
            old_states,
            index as int,
            CollectionState::Finished,
        );
        crate::config::lemma_count_loading_pos(old_states, index as int);
        assert(count_loading(pe.1.states@) + 1 == count_loading(old_states));
    }
    pe.1.count = pe.1.count - 1;
    if pe.1.count == 0 && !pe.1.transitioned {
        if let Some(n) = pe.1.next {
            state.request_transition(n);
            pe.1.transitioned = true;
        }
    }
    let ghost pe_ghost = pe;
    config.entries.insert(i, pe);
    proof {
        assert(config.entries@ =~= old_entries.update(i as int, pe_ghost));
        assert forall|q: u64|
            config_lookup(config.entries@, q) == (if q == phase {
                Some(pe_ghost.1)
            } else {
                config_lookup(old_entries, q)
            }) by {
            crate::config::lemma_config_lookup_replace(old_entries, i as int, pe_ghost, q);
        }
        assert forall|j: int| 0 <= j < config.entries@.len() implies entry_wf(
            (#[trigger] config.entries@[j]).1,
        ) by {
            if j != i {
                assert(config.entries@[j] == old_entries[j]);
                assert(entry_wf(old_entries[j].1));
            }
        }
    }
    CheckOutcome::Finished { total }
}

/// The number of collections attached to a phase.
pub fn collection_count(config: &AssetLoaderConfiguration, phase: u64) -> (r: usize)
    requires
        config_lookup(config.entries@, phase) is Some,
    ensures
        r == (config_lookup(config.entries@, phase)->0).collections@.len(),
{
    match config.find_entry(phase) {
        Some(i) => config.entries[i].1.collections.len(),
        None => 0,
    }
}

/// A phase's outstanding-collection count: collections started in this
/// activation and not yet finished.
pub fn outstanding_count(config: &AssetLoaderConfiguration, phase: u64) -> (r: usize)
    requires
        config_lookup(config.entries@, phase) is Some,
    ensures
        r == (config_lookup(config.entries@, phase)->0).count,
{
    match config.find_entry(phase) {
        Some(i) => config.entries[i].1.count,
        None => 0,
    }
}

/// Whether a phase's transition has already been requested in the current
/// activation.
pub fn has_transitioned(config: &AssetLoaderConfiguration, phase: u64) -> (r: bool)
    requires
        config_lookup(config.entries@, phase) is Some,
    ensures
        r == (config_lookup(config.entries@, phase)->0).transitioned,
{
    match config.find_entry(phase) {
        Some(i) => config.entries[i].1.transitioned,
        None => false,
    }
}

/// One attached collection of a phase, for resolving its paths.
pub fn get_collection<'a>(
    config: &'a AssetLoaderConfiguration,
    phase: u64,
    index: usize,
) -> (r: &'a crate::collection::AssetCollection)
    requires
        config_lookup(config.entries@, phase) is Some,
        index < (config_lookup(config.entries@, phase)->0).collections@.len(),
    ensures
        *r == (config_lookup(config.entries@, phase)->0).collections@[index as int],
{
    match config.find_entry(phase) {
        Some(i) => &config.entries[i].1.collections[index],
        None => &config.entries[0].1.collections[0],
    }
}

/// The live tracker's handles for one collection of a phase, if its loads
/// are in flight: the handles whose statuses the engine is to be asked for
/// on the next poll.
pub fn pending_handles<'a>(
    config: &'a AssetLoaderConfiguration,
    phase: u64,
    index: usize,
) -> (r: Option<&'a Vec<u64>>)
    requires
        config_lookup(config.entries@, phase) is Some,
        index < (config_lookup(config.entries@, phase)->0).states@.len(),
    ensures
        match r {
            Some(h) => (config_lookup(config.entries@, phase)->0).states@[index as int] matches
                CollectionState::Loading(t) && h@ == t.handles@,
            None => !((config_lookup(config.entries@, phase)->0).states@[index as int]
                is Loading),
        },
{
    match config.find_entry(phase) {
        Some(i) => {
            match &config.entries[i].1.states[index] {
                CollectionState::Loading(t) => Some(&t.handles),
                _ => None,
            }
        },
        None => None,
    }
}

/// Whether one collection of a phase has finished in the current
/// activation (its value is published).
pub fn is_finished(config: &AssetLoaderConfiguration, phase: u64, index: usize) -> (r: bool)
    requires
        config_lookup(config.entries@, phase) is Some,
        index < (config_lookup(config.entries@, phase)->0).states@.len(),
    ensures
        r == ((config_lookup(config.entries@, phase)->0).states@[index as int] is Finished),
{
    match config.find_entry(phase) {
        Some(i) => matches!(&config.entries[i].1.states[index], CollectionState::Finished),
        None => false,
    }
}

/// On phase exit, immediately after the transition fired: the post-load
/// initializers to run, in registration order.
pub fn post_process(config: &AssetLoaderConfiguration, phase: u64) -> (inits: Vec<u64>)
    requires
        config_lookup(config.entries@, phase) is Some,
    ensures
        inits@ == (config_lookup(config.entries@, phase)->0).initializers@,
{
    match config.find_entry(phase) {
        Some(i) => {
            let src = &config.entries[i].1.initializers;
            let mut out: Vec<u64> = Vec::new();
            let mut j: usize = 0;
            proof {
                assert(src@.take(0) =~= Seq::<u64>::empty());
            }
            while j < src.len()
                invariant
                    j <= src@.len(),
                    out@ == src@.take(j as int),
                decreases src@.len() - j,
            {
                out.push(src[j]);
                proof {
                    assert(src@.take(j + 1) =~= src@.take(j as int).push(src@[j as int]));
                }
                j = j + 1;
            }
            proof {
                assert(src@.take(src@.len() as int) =~= src@);
            }
            out
        },
        None => Vec::new(),
    }
}

} // verus!
