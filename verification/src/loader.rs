//! The fluent registration surface: declare a loading phase, the state to
//! continue to, the collections to load during the phase, key/path pairs for
//! the dynamic key registry, and post-load initializers — then build the
//! phase's entry in the configuration table. Registration happens at
//! application start-up; re-building the same phase identifier deliberately
//! replaces its configuration.

use vstd::prelude::*;

use crate::collection::AssetCollection;
use crate::config::{
    config_lookup, config_wf, count_loading, AssetLoaderConfiguration, CollectionState,
    LoadingConfiguration,
};
use crate::keys::{merged, AssetKeys};

verus! {

/// Configures automatic asset loading for one loading phase.
pub struct AssetLoader {
    /// The phase during which the declared collections are loaded.
    pub loading_state: u64,
    /// The state to transition to once every collection has finished.
    pub next_state: Option<u64>,
    /// Key/path pairs to put into the dynamic key registry at build time.
    pub keys: Vec<(String, String)>,
    /// The collections to load, in registration order.
    pub collections: Vec<AssetCollection>,
    /// The post-load initializers to run after the transition, in order.
    pub initializers: Vec<u64>,
}

impl AssetLoader {
    /// Start configuring the given loading phase: no next state, no keys,
    /// no collections, no initializers yet.
    pub fn new(load: u64) -> (r: AssetLoader)
        ensures
            r.loading_state == load,
            r.next_state is None,
            r.keys@.len() == 0,
            r.collections@.len() == 0,
            r.initializers@.len() == 0,
    {
        AssetLoader {
            loading_state: load,
            next_state: None,
            keys: Vec::new(),
            collections: Vec::new(),
            initializers: Vec::new(),
        }
    }

    /// The state to set after all asset collections are loaded and
    /// published.
    pub fn continue_to_state(self, next: u64) -> (r: AssetLoader)
        ensures
            r.loading_state == self.loading_state,
            r.next_state == Some(next),
            r.keys@ == self.keys@,
            r.collections@ == self.collections@,
            r.initializers@ == self.initializers@,
    {
        let mut r = self;
        r.next_state = Some(next);
        r
    }

    /// Attach a collection: it will be loaded during the phase and its
    /// finished value published.
    pub fn with_collection(self, collection: AssetCollection) -> (r: AssetLoader)
        ensures
            r.loading_state == self.loading_state,
            r.next_state == self.next_state,
            r.keys@ == self.keys@,
            r.collections@ == self.collections@.push(collection),
            r.initializers@ == self.initializers@,
    {
        let mut r = self;
        r.collections.push(collection);
        r
    }

    /// Append key/path pairs for the dynamic key registry; they are applied
    /// in order at build time, so a later pair wins over an earlier one with
    /// the same key.
    pub fn add_keys(self, keys: Vec<(String, String)>) -> (r: AssetLoader)
        ensures
            r.loading_state == self.loading_state,
            r.next_state == self.next_state,
            r.keys@ == self.keys@ + keys@,
            r.collections@ == self.collections@,
            r.initializers@ == self.initializers@,
    {
        let mut r = self;
        let mut more = keys;
        r.keys.append(&mut more);
        r
    }

    /// Add a post-load initializer to be run, in registration order, after
    /// all asset collections are loaded and the transition has fired.
    pub fn init_resource(self, init: u64) -> (r: AssetLoader)
        ensures
            r.loading_state == self.loading_state,
            r.next_state == self.next_state,
            r.keys@ == self.keys@,
            r.collections@ == self.collections@,
            r.initializers@ == self.initializers@.push(init),
    {
        let mut r = self;
        r.initializers.push(init);
        r
    }

    /// Finish configuring: register (or replace) the phase's entry in the
    /// configuration table — next state overwritten, outstanding count
    /// starting at zero, nothing started, nothing transitioned — and put the
    /// accumulated key/path pairs into the dynamic key registry. Other
    /// phases are untouched.
    pub fn build(self, config: &mut AssetLoaderConfiguration, keys: &mut AssetKeys)
        requires
            config_wf(*old(config)),
        ensures
            config_wf(*final(config)),
            config_lookup(final(config).entries@, self.loading_state) is Some,
            ({
                let e = config_lookup(final(config).entries@, self.loading_state)->0;
                &&& e.next == self.next_state
                &&& e.count == 0
                &&& e.transitioned == false
                &&& e.collections@ == self.collections@
                &&& e.initializers@ == self.initializers@
                &&& e.states@.len() == self.collections@.len()
                &&& forall|j: int|
                    0 <= j < e.states@.len() ==> (#[trigger] e.states@[j]) is NotStarted
            }),
            forall|q: u64|
                q != self.loading_state ==> config_lookup(final(config).entries@, q)
                    == config_lookup(old(config).entries@, q),
            final(keys)@ == merged(old(keys)@, self.keys@),
    {
        let AssetLoader { loading_state, next_state, keys: pairs, collections, initializers } =
            self;
        let ghost m0 = keys@;
        let ghost pairs_view = pairs@;
        let mut j: usize = 0;
        proof {
            assert(pairs_view.skip(0) =~= pairs_view);
        }
        while j < pairs.len()
            invariant
                j <= pairs_view.len(),
                pairs@ == pairs_view,
                merged(m0, pairs_view) == merged(keys@, pairs_view.skip(j as int)),
            decreases pairs_view.len() - j,
        {
            let ghost before = keys@;
            let k = pairs[j].0.as_str().to_owned();
            let v = pairs[j].1.as_str().to_owned();
            keys.set_asset_key(k, v);
            proof {
                assert(pairs_view.skip(j as int)[0] == pairs_view[j as int]);
                assert(pairs_view.skip(j as int).drop_first() =~= pairs_view.skip(j + 1));
                assert(merged(before, pairs_view.skip(j as int)) == merged(
                    keys@,
                    pairs_view.skip(j + 1),
                ));
            }
            j = j + 1;
        }
        proof {
            assert(pairs_view.skip(pairs_view.len() as int) =~= Seq::<(String, String)>::empty());
        }
        let n = collections.len();
        let mut states: Vec<CollectionState> = Vec::new();
        while states.len() < n
            invariant
                states@.len() <= n,
                count_loading(states@) == 0,
                forall|j: int| 0 <= j < states@.len() ==> (#[trigger] states@[j]) is NotStarted,
            decreases n - states@.len(),
        {
            let ghost prev = states@;
            states.push(CollectionState::NotStarted);
            proof {
                assert(states@.drop_last() =~= prev);
                assert(states@.last() is NotStarted);
            }
        }
        let entry = LoadingConfiguration {
            next: next_state,
            count: 0,
            transitioned: false,
            collections,
            states,
            initializers,
        };
        config.register(loading_state, entry);
    }
}

} // verus!
