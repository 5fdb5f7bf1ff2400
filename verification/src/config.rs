//! Phase configuration table: one entry per declared loading phase, holding
//! the state to transition to on completion, the outstanding-collection
//! count, the attached collections with their per-collection load state, and
//! the post-load initializers.

use vstd::prelude::*;

use crate::collection::AssetCollection;

verus! {

/// The in-flight handle set for one collection while it is loading: the
/// opaque engine handles, one per started load, in issue order.
pub struct LoadingAssetHandles {
    /// Engine handles of the started loads, in the order the paths were resolved.
    pub handles: Vec<u64>,
}

/// Load state of one (phase, collection) pair. A collection starts out not
/// started, becomes loading when the phase is entered and its handles are
/// recorded, and is finished once every recorded handle reported loaded.
pub enum CollectionState {
    /// The phase has not started this collection's loads.
    NotStarted,
    /// The collection's loads are in flight; the tracker holds their handles.
    Loading(LoadingAssetHandles),
    /// Every started handle reported loaded; the finished value is published.
    Finished,
}

/// Configuration and live tracking for one loading phase.
pub struct LoadingConfiguration {
    /// The state to request once every attached collection has finished.
    pub next: Option<u64>,
    /// Outstanding-collection count: collections started and not yet finished.
    pub count: usize,
    /// Whether the transition has already been requested in this activation.
    pub transitioned: bool,
    /// The attached collections, in registration order.
    pub collections: Vec<AssetCollection>,
    /// Load state of each attached collection, aligned with `collections`.
    pub states: Vec<CollectionState>,
    /// Post-load initializers to run after the transition, in registration order.
    pub initializers: Vec<u64>,
}

/// The phase configuration table, keyed by loading-phase identifier.
pub struct AssetLoaderConfiguration {
    /// The table entries; the first entry holding a phase identifier is its
    /// configuration.
    pub entries: Vec<(u64, LoadingConfiguration)>,
}

/// How much one collection state adds to the outstanding count.
pub open spec fn loading_one(s: CollectionState) -> nat {
    if s is Loading {
        1nat
    } else {
        0nat
    }
}

/// Number of collections currently loading: the value the outstanding count
/// must hold.
pub open spec fn count_loading(states: Seq<CollectionState>) -> nat
    decreases states.len(),
{
    if states.len() == 0 {
        0nat
    } else {
        count_loading(states.drop_last()) + loading_one(states.last())
    }
}

/// Well-formedness of one table entry: one load state per attached
/// collection, and the outstanding count equal to the number of collections
/// still loading.
pub open spec fn entry_wf(e: LoadingConfiguration) -> bool {
    &&& e.states@.len() == e.collections@.len()
    &&& e.count == count_loading(e.states@)
}

/// The configuration a list of table entries gives to a phase: the first
/// entry holding its identifier, if any.
pub open spec fn config_lookup(
    entries: Seq<(u64, LoadingConfiguration)>,
    phase: u64,
) -> Option<LoadingConfiguration>
    decreases entries.len(),
{
    if entries.len() == 0 {
        None
    } else if entries[0].0 == phase {
        Some(entries[0].1)
    } else {
        config_lookup(entries.drop_first(), phase)
    }
}

/// Well-formedness of every entry of a table.
pub open spec fn entries_wf(entries: Seq<(u64, LoadingConfiguration)>) -> bool {
    forall|j: int| 0 <= j < entries.len() ==> entry_wf((#[trigger] entries[j]).1)
}

/// Well-formedness of the whole table.
pub open spec fn config_wf(c: AssetLoaderConfiguration) -> bool {
    entries_wf(c.entries@)
}

/// The outstanding count never exceeds the number of attached collections.
pub proof fn lemma_count_loading_le_len(states: Seq<CollectionState>)
    ensures
        count_loading(states) <= states.len(),
    decreases states.len(),
{
    if states.len() > 0 {
        lemma_count_loading_le_len(states.drop_last());
    }
}

/// A collection that is loading keeps the outstanding count positive.
pub proof fn lemma_count_loading_pos(states: Seq<CollectionState>, i: int)
    requires
        0 <= i < states.len(),
        states[i] is Loading,
    ensures
        count_loading(states) >= 1,
    decreases states.len(),
{
    if i < states.len() - 1 {
        assert(states.drop_last()[i] == states[i]);
        lemma_count_loading_pos(states.drop_last(), i);
    }
}

/// Changing one collection's state changes the outstanding count by the
/// difference of the two states' contributions.
pub proof fn lemma_count_loading_update(states: Seq<CollectionState>, i: int, v: CollectionState)
    requires
        0 <= i < states.len(),
    ensures
        count_loading(states.update(i, v)) + loading_one(states[i]) == count_loading(states)
            + loading_one(v),
    decreases states.len(),
{
    let updated = states.update(i, v);
    if i == states.len() - 1 {
        assert(updated.drop_last() =~= states.drop_last());
        assert(updated.last() == v);
    } else {
        assert(updated.drop_last() =~= states.drop_last().update(i, v));
        assert(updated.last() == states.last());
        lemma_count_loading_update(states.drop_last(), i, v);
    }
}

proof fn lemma_config_lookup_first_match(
    entries: Seq<(u64, LoadingConfiguration)>,
    phase: u64,
    i: int,
)
    requires
        0 <= i < entries.len(),
        entries[i].0 == phase,
        forall|j: int| 0 <= j < i ==> (#[trigger] entries[j]).0 != phase,
    ensures
        config_lookup(entries, phase) == Some(entries[i].1),
    decreases entries.len(),
{
    if i > 0 {
        lemma_config_lookup_first_match(entries.drop_first(), phase, i - 1);
    }
}

proof fn lemma_config_lookup_no_match(entries: Seq<(u64, LoadingConfiguration)>, phase: u64)
    requires
        forall|j: int| 0 <= j < entries.len() ==> (#[trigger] entries[j]).0 != phase,
    ensures
        config_lookup(entries, phase) is None,
    decreases entries.len(),
{
    if entries.len() > 0 {
        lemma_config_lookup_no_match(entries.drop_first(), phase);
    }
}

/// A found configuration is one of the table's entries; in a well-formed
/// table it is therefore well-formed itself.
pub proof fn lemma_config_lookup_wf(entries: Seq<(u64, LoadingConfiguration)>, phase: u64)
    requires
        entries_wf(entries),
        config_lookup(entries, phase) is Some,
    ensures
        entry_wf(config_lookup(entries, phase)->0),
    decreases entries.len(),
{
    if entries.len() > 0 && entries[0].0 != phase {
        assert(entry_wf(entries[0].1));
        assert forall|j: int| 0 <= j < entries.drop_first().len() implies entry_wf(
            (#[trigger] entries.drop_first()[j]).1,
        ) by {
            assert(entries.drop_first()[j] == entries[j + 1]);
        }
        lemma_config_lookup_wf(entries.drop_first(), phase);
    }
}

/// Replacing the first entry that holds a phase changes only that phase's
/// configuration.
pub proof fn lemma_config_lookup_replace(
    entries: Seq<(u64, LoadingConfiguration)>,
    i: int,
    p: (u64, LoadingConfiguration),
    phase: u64,
)
    requires
        0 <= i < entries.len(),
        entries[i].0 == p.0,
        forall|j: int| 0 <= j < i ==> (#[trigger] entries[j]).0 != p.0,
    ensures
        config_lookup(entries.update(i, p), phase) == (if phase == p.0 {
            Some(p.1)
        } else {
            config_lookup(entries, phase)
        }),
    decreases entries.len(),
{
    let updated = entries.update(i, p);
    if i == 0 {
        if phase != p.0 {
            assert(updated.drop_first() =~= entries.drop_first());
        }
    } else {
        assert(updated.drop_first() =~= entries.drop_first().update(i - 1, p));
        lemma_config_lookup_replace(entries.drop_first(), i - 1, p, phase);
    }
}

/// Appending an entry only configures its phase, and only where the phase
/// had no entry before.
proof fn lemma_config_lookup_push(
    entries: Seq<(u64, LoadingConfiguration)>,
    p: (u64, LoadingConfiguration),
    phase: u64,
)
    ensures
        config_lookup(entries.push(p), phase) == (if config_lookup(entries, phase) is Some {
            config_lookup(entries, phase)
        } else if phase == p.0 {
            Some(p.1)
        } else {
            None
        }),
    decreases entries.len(),
{
    let pushed = entries.push(p);
    assert(pushed.len() == entries.len() + 1);
    if entries.len() == 0 {
        assert(pushed[0] == p);
        assert(pushed.drop_first() =~= Seq::<(u64, LoadingConfiguration)>::empty());
        assert(config_lookup(pushed.drop_first(), phase) is None);
        if phase == p.0 {
            assert(config_lookup(pushed, phase) == Some(p.1));
        } else {
            assert(config_lookup(pushed, phase) is None);
        }
    } else {
        assert(pushed[0] == entries[0]);
        assert(pushed.drop_first() =~= entries.drop_first().push(p));
        lemma_config_lookup_push(entries.drop_first(), p, phase);
        if entries[0].0 == phase {
            assert(config_lookup(pushed, phase) == Some(entries[0].1));
            assert(config_lookup(entries, phase) == Some(entries[0].1));
        } else {
            assert(config_lookup(pushed, phase) == config_lookup(entries.drop_first().push(p), phase));
            assert(config_lookup(entries, phase) == config_lookup(entries.drop_first(), phase));
        }
    }
}

impl AssetLoaderConfiguration {
    /// An empty table: no phase is configured.
    pub fn new() -> (r: AssetLoaderConfiguration)
        ensures
            config_wf(r),
            forall|q: u64| config_lookup(r.entries@, q) is None,
    {
        let r = AssetLoaderConfiguration { entries: Vec::new() };
        r
    }

    /// Index of the first entry holding `phase`, if any.
    pub(crate) fn find_entry(&self, phase: u64) -> (r: Option<usize>)
        ensures
            match r {
                Some(i) => i < self.entries@.len() && self.entries@[i as int].0 == phase
                    && (forall|j: int| 0 <= j < i ==> (#[trigger] self.entries@[j]).0 != phase),
                None => forall|j: int|
                    0 <= j < self.entries@.len() ==> (#[trigger] self.entries@[j]).0 != phase,
            },
            r is Some <==> config_lookup(self.entries@, phase) is Some,
            r matches Some(i) ==> config_lookup(self.entries@, phase) == Some(
                self.entries@[i as int].1,
            ),
    {
        let mut i: usize = 0;
        while i < self.entries.len()
            invariant
                i <= self.entries@.len(),
                forall|j: int| 0 <= j < i ==> (#[trigger] self.entries@[j]).0 != phase,
            decreases self.entries@.len() - i,
        {
            if self.entries[i].0 == phase {
                proof {
                    lemma_config_lookup_first_match(self.entries@, phase, i as int);
                }
                return Some(i);
            }
            i = i + 1;
        }
        proof {
            lemma_config_lookup_no_match(self.entries@, phase);
        }
        None
    }

    /// Whether a phase has a registered configuration.
    pub fn is_registered(&self, phase: u64) -> (r: bool)
        ensures
            r == (config_lookup(self.entries@, phase) is Some),
    {
        self.find_entry(phase).is_some()
    }

    /// Register (or replace) the configuration of one phase: afterwards the
    /// phase resolves to exactly the given entry, and every other phase is
    /// untouched.
    pub fn register(&mut self, phase: u64, entry: LoadingConfiguration)
        requires
            entry_wf(entry),
        ensures
            config_wf(*old(self)) ==> config_wf(*final(self)),
            config_lookup(final(self).entries@, phase) == Some(entry),
            forall|q: u64|
                q != phase ==> config_lookup(final(self).entries@, q) == config_lookup(
                    old(self).entries@,
                    q,
                ),
    {
        let ghost old_entries = self.entries@;
        match self.find_entry(phase) {
            Some(i) => {
                self.entries.set(i, (phase, entry));
                proof {
                    assert forall|q: u64|
                        config_lookup(self.entries@, q) == (if q == phase {
                            Some(entry)
                        } else {
                            config_lookup(old_entries, q)
                        }) by {
                        lemma_config_lookup_replace(old_entries, i as int, (phase, entry), q);
                    }
                    if entries_wf(old_entries) {
                        assert forall|j: int| 0 <= j < self.entries@.len() implies entry_wf(
                            (#[trigger] self.entries@[j]).1,
                        ) by {
                            if j != i {
                                assert(self.entries@[j] == old_entries[j]);
                                assert(entry_wf(old_entries[j].1));
                            }
                        }
                    }
                }
            },
            None => {
                self.entries.push((phase, entry));
                proof {
                    assert forall|q: u64|
                        config_lookup(self.entries@, q) == (if q == phase {
                            Some(entry)
                        } else {
                            config_lookup(old_entries, q)
                        }) by {
                        lemma_config_lookup_push(old_entries, (phase, entry), q);
                        lemma_config_lookup_no_match(old_entries, phase);
                    }
                    if entries_wf(old_entries) {
                        assert forall|j: int| 0 <= j < self.entries@.len() implies entry_wf(
                            (#[trigger] self.entries@[j]).1,
                        ) by {
                            if j < old_entries.len() {
                                assert(self.entries@[j] == old_entries[j]);
                                assert(entry_wf(old_entries[j].1));
                            }
                        }
                    }
                }
            },
        }
    }
}

} // verus!
