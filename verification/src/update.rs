//! Updates: a queued filter with its identity, its tags and its resolution
//! status, and what folding a chain of them over a state can give.

use std::collections::HashSet;
use std::marker::PhantomData;
use vstd::prelude::*;
use crate::state::State;

verus! {

/// A label that rules attach to an update to tell later rules a fact about
/// it. The host chooses the labels and numbers them.
pub type Tag = u64;

/// Whether a chain that ends in an update may be committed.
#[derive(Clone, Copy, PartialEq, Eq, Structural, Debug)]
pub enum Resolved {
    /// The chain may be committed as soon as this update is its last.
    Resolved,
    /// The chain may be committed, though the host holds it to be incomplete.
    Partial,
    /// The chain must not be committed while this update is its last.
    Unresolved,
}

/// A queued change: the filter that makes it, a position token, the tags
/// that rules have attached, and the resolution status.
pub struct Update<T, F> {
    pub filter: F,
    pub id: usize,
    pub tags: HashSet<Tag>,
    pub resolved: Resolved,
    pub payload: PhantomData<T>,
}

impl<T, F: Fn(State<T>) -> State<T>> Update<T, F> {
    /// The filter is a total function: it accepts every state.
    pub open spec fn wf(&self) -> bool {
        forall|s: State<T>| call_requires(self.filter, (s,))
    }

    /// An update without tags.
    pub fn new(filter: F, id: usize, resolved: Resolved) -> (update: Self)
        ensures
            update.filter == filter,
            update.id == id,
            update.resolved == resolved,
            update.tags@ == Set::<Tag>::empty(),
    {
        Update { filter, id, tags: HashSet::new(), resolved, payload: PhantomData }
    }
}

/// Whether `out` is a state that the filters of `chain`, applied to `start`
/// one after the other, earliest first, can give.
pub open spec fn folds_to<T, F: Fn(State<T>) -> State<T>>(
    chain: Seq<Update<T, F>>,
    start: State<T>,
    out: State<T>,
) -> bool
    decreases chain.len(),
{
    if chain.len() == 0 {
        out == start
    } else {
        exists|mid: State<T>|
            folds_to(chain.drop_last(), start, mid) && #[trigger] call_ensures(
                chain.last().filter,
                (mid,),
                out,
            )
    }
}

/// The state that the functions of `model`, applied to `start` one after the
/// other, earliest first, give.
pub open spec fn run_in_order<T>(model: Seq<spec_fn(State<T>) -> State<T>>, start: State<T>) -> State<
    T,
>
    decreases model.len(),
{
    if model.len() == 0 {
        start
    } else {
        (model.last())(run_in_order(model.drop_last(), start))
    }
}

/// Where every filter of a chain computes a function, folding the chain
/// gives one state only: the functions applied in queue order. A chain of
/// filters that do not commute is thereby told apart from any reordering of
/// it.
pub proof fn lemma_fold_in_queue_order<T, F: Fn(State<T>) -> State<T>>(
    chain: Seq<Update<T, F>>,
    model: Seq<spec_fn(State<T>) -> State<T>>,
    start: State<T>,
    out: State<T>,
)
    requires
        model.len() == chain.len(),
        forall|i: int, s: State<T>, r: State<T>|
            0 <= i < chain.len() && #[trigger] call_ensures(chain[i].filter, (s,), r) ==> r
                == (model[i])(s),
        folds_to(chain, start, out),
    ensures
        out == run_in_order(model, start),
    decreases chain.len(),
{
    if chain.len() > 0 {
        let mid = choose|mid: State<T>|
            folds_to(chain.drop_last(), start, mid) && #[trigger] call_ensures(
                chain.last().filter,
                (mid,),
                out,
            );
        lemma_fold_in_queue_order(chain.drop_last(), model.drop_last(), start, mid);
    }
}

} // verus!
