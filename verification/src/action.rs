//! Actions: generators that propose a chain of updates for the current
//! state, refuse, or ask the host for input.

use std::marker::PhantomData;
use vstd::prelude::*;
use crate::state::State;
use crate::update::Update;

verus! {

/// What an action needs from outside before it can go on. The host numbers
/// its kinds of request; the engine hands the number through.
#[derive(Clone, Copy, PartialEq, Eq, Structural, Debug)]
pub struct UserInput {
    pub kind: u64,
}

/// Why an action was refused.
#[derive(Clone, Copy, PartialEq, Eq, Structural, Debug)]
pub enum InvalidAction {
    /// The current state does not meet the action's precondition.
    BadPredicate,
}

/// The answer of an action to a state.
pub enum ActionResponse<T, F> {
    /// The chain of updates that the action proposes, earliest first.
    Valid(Vec<Update<T, F>>),
    /// The action does not apply to this state.
    Invalid(InvalidAction),
    /// The action cannot go on before the host has supplied input.
    RequestInput(UserInput),
}

impl<T, F: Fn(State<T>) -> State<T>> ActionResponse<T, F> {
    /// Every proposed update is well formed.
    pub open spec fn wf(&self) -> bool {
        self matches ActionResponse::Valid(updates) ==> forall|i: int|
            0 <= i < updates.len() ==> (#[trigger] updates[i]).wf()
    }
}

/// A generator of update chains. It keeps nothing between two calls: each
/// call looks at the state it is given and answers from scratch.
pub struct Action<T, F, G> {
    pub generator: G,
    pub payload: PhantomData<(T, F)>,
}

impl<T, F, G> Action<T, F, G> where
    F: Fn(State<T>) -> State<T>,
    G: Fn(&State<T>) -> ActionResponse<T, F>,
 {
    /// The generator accepts every state, and whatever it answers is well
    /// formed.
    pub open spec fn wf(&self) -> bool {
        &&& forall|s: State<T>| call_requires(self.generator, (&s,))
        &&& forall|s: State<T>, r: ActionResponse<T, F>|
            call_ensures(self.generator, (&s,), r) ==> r.wf()
    }

    /// The action that answers with `generator`.
    pub fn new(generator: G) -> (action: Self)
        ensures
            action.generator == generator,
    {
        Action { generator, payload: PhantomData }
    }

    /// Asks the generator what it proposes for `state`. The state is only
    /// read.
    pub fn apply(&self, state: &State<T>) -> (response: ActionResponse<T, F>)
        requires
            call_requires(self.generator, (state,)),
        ensures
            call_ensures(self.generator, (state,), response),
    {
        (self.generator)(state)
    }
}

} // verus!
