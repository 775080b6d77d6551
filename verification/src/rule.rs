//! Rules: policies that the engine asks about every update it examines.

use vstd::prelude::*;
use crate::action::Action;
use crate::action::ActionResponse;
use crate::state::State;
use crate::update::Tag;
use crate::update::Update;

verus! {

/// The answer of a rule to one update.
pub enum RuleResponse<T, F, G> {
    /// The rule has nothing to say.
    Skip,
    /// Drop the update and all that follow it, and run the action in their
    /// place.
    Divert(Action<T, F, G>),
    /// Drop the whole chain and run the action.
    Revert(Action<T, F, G>),
    /// Keep the chain and run the action before going on with it.
    Inject(Action<T, F, G>),
    /// Attach the tag to the update, for the rules that come later.
    Attach(Tag),
}

impl<T, F, G> RuleResponse<T, F, G> where
    F: Fn(State<T>) -> State<T>,
    G: Fn(&State<T>) -> ActionResponse<T, F>,
 {
    /// The action that the response carries, if any, is well formed.
    pub open spec fn wf(&self) -> bool {
        match *self {
            RuleResponse::Divert(action) => action.wf(),
            RuleResponse::Revert(action) => action.wf(),
            RuleResponse::Inject(action) => action.wf(),
            _ => true,
        }
    }

    /// The response ends the rule pass: no later rule is asked.
    pub open spec fn halts(&self) -> bool {
        !(self is Skip || self is Attach)
    }
}

/// The rule accepts every state together with every well-formed update, and
/// whatever it answers is well formed.
pub open spec fn rule_wf<T, F, G, R>(rule: R) -> bool where
    F: Fn(State<T>) -> State<T>,
    G: Fn(&State<T>) -> ActionResponse<T, F>,
    R: Fn(&State<T>, &Update<T, F>) -> RuleResponse<T, F, G>,
 {
    &&& forall|s: State<T>, u: Update<T, F>| u.wf() ==> call_requires(rule, (&s, &u))
    &&& forall|s: State<T>, u: Update<T, F>, r: RuleResponse<T, F, G>|
        call_ensures(rule, (&s, &u), r) ==> r.wf()
}

} // verus!
