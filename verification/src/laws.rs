//! The driver's completion behaviour, stated abstractly: a phase activation
//! is modelled by which collections still hold a live tracker, the
//! outstanding count, the exactly-once guard, the configured next state and
//! the requested-transition slot. Finishing collections one by one — in any
//! order — requests the configured transition exactly when the last one
//! finishes, and never a second time.

use vstd::prelude::*;

use crate::config::{
    count_loading, entry_wf, loading_one, CollectionState, LoadingConfiguration,
};

verus! {

/// Abstract picture of one phase activation.
#[verifier::ext_equal]
pub struct PhaseModel {
    /// Which attached collections still hold a live tracker.
    pub loading: Seq<bool>,
    /// The outstanding-collection count.
    pub count: nat,
    /// Whether the transition has already been requested in this activation.
    pub transitioned: bool,
    /// The state configured to be requested on completion.
    pub next: Option<u64>,
    /// The requested-transition slot of the global state machine.
    pub requested: Option<u64>,
}

/// The abstraction of a configuration-table entry together with the global
/// request slot.
pub open spec fn abs(e: LoadingConfiguration, requested: Option<u64>) -> PhaseModel {
    PhaseModel {
        loading: Seq::new(e.states@.len(), |i: int| e.states@[i] is Loading),
        count: e.count as nat,
        transitioned: e.transitioned,
        next: e.next,
        requested,
    }
}

/// Number of live trackers in the abstract picture.
pub open spec fn count_live(loading: Seq<bool>) -> nat
    decreases loading.len(),
{
    if loading.len() == 0 {
        0nat
    } else {
        count_live(loading.drop_last()) + (if loading.last() {
            1nat
        } else {
            0nat
        })
    }
}

proof fn lemma_count_live_abs(states: Seq<CollectionState>)
    ensures
        count_live(Seq::new(states.len(), |i: int| states[i] is Loading)) == count_loading(states),
    decreases states.len(),
{
    let mapped = Seq::new(states.len(), |i: int| states[i] is Loading);
    if states.len() > 0 {
        assert(mapped.drop_last() =~= Seq::new(
            states.drop_last().len(),
            |i: int| states.drop_last()[i] is Loading,
        ));
        assert(mapped.last() == (states.last() is Loading));
        assert(loading_one(states.last()) == (if states.last() is Loading {
            1nat
        } else {
            0nat
        }));
        lemma_count_live_abs(states.drop_last());
    }
}

/// In a well-formed configuration entry the abstract outstanding count is
/// exactly the number of live trackers: the hypotheses of the exactly-once
/// theorem describe every reachable activation whose live collections are
/// finished one by one.
pub proof fn lemma_abs_count_is_live_count(e: LoadingConfiguration, requested: Option<u64>)
    requires
        entry_wf(e),
    ensures
        abs(e, requested).count == count_live(abs(e, requested).loading),
{
    lemma_count_live_abs(e.states@);
}

/// Whether finishing one more collection fires the transition: the count
/// drops from one to zero, a next state is configured, and no transition
/// has been requested yet in this activation.
pub open spec fn finish_fires(m: PhaseModel) -> bool {
    m.count == 1 && m.next is Some && !m.transitioned
}

/// One finish event: collection `i`'s tracker goes away, the outstanding
/// count drops by one, and the transition is requested exactly when this
/// event fires.
pub open spec fn finish_step(m: PhaseModel, i: int) -> PhaseModel {
    let fires = finish_fires(m);
    PhaseModel {
        loading: m.loading.update(i, false),
        count: (m.count - 1) as nat,
        transitioned: m.transitioned || fires,
        next: m.next,
        requested: if fires {
            m.next
        } else {
            m.requested
        },
    }
}

/// A sequence of finish events applied first to last.
pub open spec fn run(m: PhaseModel, order: Seq<int>) -> PhaseModel
    decreases order.len(),
{
    if order.len() == 0 {
        m
    } else {
        run(finish_step(m, order[0]), order.drop_first())
    }
}

/// The events name distinct collections that all hold a live tracker.
pub open spec fn distinct_live(m: PhaseModel, order: Seq<int>) -> bool {
    &&& forall|a: int|
        0 <= a < order.len() ==> 0 <= #[trigger] order[a] < m.loading.len()
            && m.loading[order[a]]
    &&& forall|a: int, b: int| 0 <= a < b < order.len() ==> order[a] != order[b]
}

/// What a poll that finishes collection `i` does, in model terms: the
/// configuration entry and request slot it leaves behind are the finish
/// step of the ones it found. The hypotheses are exactly what
/// [`check_loading_state`](crate::driver::check_loading_state) ensures of a
/// poll whose every handle has loaded.
pub proof fn lemma_check_is_finish_step(
    e_old: LoadingConfiguration,
    e_new: LoadingConfiguration,
    req_old: Option<u64>,
    req_new: Option<u64>,
    i: int,
)
    requires
        0 <= i < e_old.states@.len(),
        e_old.states@[i] is Loading,
        e_old.count >= 1,
        e_new.states@ == e_old.states@.update(i, CollectionState::Finished),
        e_new.count == e_old.count - 1,
        e_new.next == e_old.next,
        e_new.transitioned == (e_old.transitioned || (e_old.count == 1 && e_old.next is Some
            && !e_old.transitioned)),
        req_new == (if e_old.count == 1 && e_old.next is Some && !e_old.transitioned {
            e_old.next
        } else {
            req_old
        }),
    ensures
        abs(e_new, req_new) == finish_step(abs(e_old, req_old), i),
{
    assert(abs(e_new, req_new).loading =~= finish_step(abs(e_old, req_old), i).loading);
    assert(abs(e_new, req_new) =~= finish_step(abs(e_old, req_old), i));
}

/// For a phase with `k` live collections and a configured next state, not
/// yet transitioned: after the `k` collections finish one by one, in any
/// order, the transition to the configured state has been requested — and
/// after every proper prefix of the events it has not been requested yet.
/// So it fires exactly once, exactly when the last collection finishes, and
/// no earlier.
pub proof fn lemma_transition_exactly_once(m: PhaseModel, order: Seq<int>)
    requires
        distinct_live(m, order),
        m.count == order.len(),
        order.len() >= 1,
        !m.transitioned,
        m.next is Some,
        m.requested is None,
    ensures
        run(m, order).requested == m.next,
        run(m, order).transitioned,
        forall|t: int|
            0 <= t < order.len() ==> !(#[trigger] run(m, order.take(t))).transitioned && run(
                m,
                order.take(t),
            ).requested is None,
    decreases order.len(),
{
    let m1 = finish_step(m, order[0]);
    if order.len() == 1 {
        assert(finish_fires(m));
        assert(run(m, order) == run(m1, order.drop_first()));
        assert(order.drop_first().len() == 0);
        assert(order.take(0) =~= Seq::<int>::empty());
    } else {
        let rest = order.drop_first();
        assert(!finish_fires(m));
        assert(m1.count == order.len() - 1);
        assert forall|a: int|
            0 <= a < rest.len() implies 0 <= #[trigger] rest[a] < m1.loading.len()
                && m1.loading[rest[a]] by {
            assert(rest[a] == order[a + 1]);
            assert(order[a + 1] != order[0]);
        }
        assert forall|a: int, b: int| 0 <= a < b < rest.len() implies rest[a] != rest[b] by {
            assert(rest[a] == order[a + 1]);
            assert(rest[b] == order[b + 1]);
        }
        lemma_transition_exactly_once(m1, rest);
        assert(run(m, order) == run(m1, rest));
        assert forall|t: int|
            0 <= t < order.len() implies !(#[trigger] run(m, order.take(t))).transitioned && run(
            m,
            order.take(t),
        ).requested is None by {
            if t == 0 {
                assert(order.take(0) =~= Seq::<int>::empty());
                assert(run(m, order.take(0)) == m);
            } else {
                assert(order.take(t)[0] == order[0]);
                assert(order.take(t).drop_first() =~= rest.take(t - 1));
                assert(run(m, order.take(t)) == run(m1, rest.take(t - 1)));
            }
        }
    }
}

/// Once the transition has been requested in an activation, later finish
/// events never change the request slot again: the transition cannot fire a
/// second time.
pub proof fn lemma_no_second_transition(m: PhaseModel, order: Seq<int>)
    requires
        m.transitioned,
    ensures
        run(m, order).requested == m.requested,
        run(m, order).transitioned,
    decreases order.len(),
{
    if order.len() > 0 {
        lemma_no_second_transition(finish_step(m, order[0]), order.drop_first());
    }
}

} // verus!
