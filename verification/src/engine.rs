//! The engine: one pending action at most, an ordered list of rules, the
//! queue of updates with its cursor, and the committed state.

use vstd::prelude::*;
use crate::action::Action;
use crate::action::ActionResponse;
use crate::action::InvalidAction;
use crate::action::UserInput;
use crate::rule::rule_wf;
use crate::rule::RuleResponse;
use crate::state::State;
use crate::update::folds_to;
use crate::update::Resolved;
use crate::update::Tag;
use crate::update::Update;

verus! {

/// What the latest evaluation of an action left for the host to see.
#[derive(Clone, Copy, PartialEq, Eq, Structural, Debug)]
pub enum Signal {
    /// Nothing to report: no action was evaluated yet, or the latest one
    /// produced its chain.
    Quiet,
    /// The action was refused and dropped.
    Rejected(InvalidAction),
    /// The action stays pending until the host has supplied this input.
    InputRequested(UserInput),
}

/// A request that the queue cannot serve.
#[derive(Clone, Copy, PartialEq, Eq, Structural, Debug)]
pub enum ChainError {
    /// The queue is empty, so there is no last update to inspect.
    EmptyChain,
    /// The cursor is at or behind the end of the queue, so there is no
    /// update under evaluation.
    NoCurrentUpdate,
}

/// The engine. `update` is the cursor: the index in `updates` of the update
/// that the rules examine next.
pub struct Engine<T, F, G, R> {
    pub action: Option<Action<T, F, G>>,
    pub rules: Vec<R>,
    pub updates: Vec<Update<T, F>>,
    pub update: usize,
    pub state: State<T>,
    pub signal: Signal,
}

impl<T, F, G, R> Engine<T, F, G, R> where
    T: Clone,
    F: Fn(State<T>) -> State<T>,
    G: Fn(&State<T>) -> ActionResponse<T, F>,
    R: Fn(&State<T>, &Update<T, F>) -> RuleResponse<T, F, G>,
 {
    /// The pending action, every rule and every queued update are well
    /// formed.
    pub open spec fn wf(&self) -> bool {
        &&& self.action matches Some(action) ==> action.wf()
        &&& forall|i: int| 0 <= i < self.rules.len() ==> rule_wf(#[trigger] self.rules[i])
        &&& forall|i: int| 0 <= i < self.updates.len() ==> (#[trigger] self.updates[i]).wf()
    }

    /// Whether `out` is a state that a commit of the queue can give: the
    /// filters of the queue folded, earliest first, over a clone of the
    /// committed state.
    pub open spec fn commits_to(&self, out: State<T>) -> bool {
        exists|start: State<T>| #[trigger]
            self.state.clones_to(start) && folds_to(self.updates@, start, out)
    }

    /// Whether `after` is this engine once it has taken in `response`, the
    /// answer of its pending action.
    ///
    /// A valid chain replaces the queue, puts the cursor at 0 and empties the
    /// action slot. A refusal empties the action slot and is shown in
    /// `signal`; queue, cursor and state stay. A request for input is shown
    /// in `signal` and leaves everything else, the pending action included,
    /// as it is.
    pub open spec fn receives(&self, response: ActionResponse<T, F>, after: Self) -> bool {
        &&& after.rules == self.rules
        &&& after.state == self.state
        &&& match response {
            ActionResponse::Valid(updates) => {
                &&& after.action is None
                &&& after.updates == updates
                &&& after.update == 0
                &&& after.signal == Signal::Quiet
            },
            ActionResponse::Invalid(reason) => {
                &&& after.action is None
                &&& after.updates == self.updates
                &&& after.update == self.update
                &&& after.signal == Signal::Rejected(reason)
            },
            ActionResponse::RequestInput(request) => {
                &&& after.action == self.action
                &&& after.updates == self.updates
                &&& after.update == self.update
                &&& after.signal == Signal::InputRequested(request)
            },
        }
    }

    /// Whether `after` is this engine once its pending action has been
    /// evaluated: the action gave some answer for the committed state, and
    /// the engine took it in.
    pub open spec fn action_step(&self, after: Self) -> bool {
        &&& self.action matches Some(action)
        &&& exists|response: ActionResponse<T, F>| #[trigger]
            call_ensures(action.generator, (&self.state,), response) && self.receives(
                response,
                after,
            )
    }

    /// Whether `after` differs from this engine in the queue at most.
    pub open spec fn same_but_queue(&self, after: Self) -> bool {
        &&& after.action == self.action
        &&& after.rules == self.rules
        &&& after.update == self.update
        &&& after.state == self.state
        &&& after.signal == self.signal
    }

    /// Whether `after` is this engine with `tag` attached to the update at
    /// the cursor, and nothing else changed.
    pub open spec fn attaches(&self, tag: Tag, after: Self) -> bool {
        let c = self.update as int;
        &&& self.same_but_queue(after)
        &&& after.updates.len() == self.updates.len()
        &&& forall|i: int|
            0 <= i < self.updates.len() && i != c ==> #[trigger] after.updates[i]
                == self.updates[i]
        &&& after.updates[c].filter == self.updates[c].filter
        &&& after.updates[c].id == self.updates[c].id
        &&& after.updates[c].resolved == self.updates[c].resolved
        &&& after.updates[c].tags@ == self.updates[c].tags@.insert(tag)
    }

    /// Whether `after` is this engine but for tags that the update at the
    /// cursor has gained.
    pub open spec fn gains_tags(&self, after: Self) -> bool {
        let c = self.update as int;
        &&& self.same_but_queue(after)
        &&& after.updates.len() == self.updates.len()
        &&& forall|i: int|
            0 <= i < self.updates.len() && i != c ==> #[trigger] after.updates[i]
                == self.updates[i]
        &&& after.updates[c].filter == self.updates[c].filter
        &&& after.updates[c].id == self.updates[c].id
        &&& after.updates[c].resolved == self.updates[c].resolved
        &&& self.updates[c].tags@.subset_of(after.updates[c].tags@)
    }

    /// Whether `after` is this engine once it has acted on `response`, the
    /// answer of a rule to the update at the cursor.
    ///
    /// `Skip` changes nothing. `Attach` puts the tag on the update at the
    /// cursor. `Divert` keeps the updates before the cursor and drops the
    /// rest; `Revert` drops the whole queue and puts the cursor at 0;
    /// `Inject` leaves the queue as it is. Each of these three makes its
    /// action the pending one.
    pub open spec fn reacts(&self, response: RuleResponse<T, F, G>, after: Self) -> bool {
        match response {
            RuleResponse::Skip => after == *self,
            RuleResponse::Attach(tag) => self.attaches(tag, after),
            RuleResponse::Divert(action) => {
                &&& after.action == Some(action)
                &&& after.rules == self.rules
                &&& after.updates@ == self.updates@.take(self.update as int)
                &&& after.update == self.update
                &&& after.state == self.state
                &&& after.signal == self.signal
            },
            RuleResponse::Revert(action) => {
                &&& after.action == Some(action)
                &&& after.rules == self.rules
                &&& after.updates@ == Seq::<Update<T, F>>::empty()
                &&& after.update == 0
                &&& after.state == self.state
                &&& after.signal == self.signal
            },
            RuleResponse::Inject(action) => {
                &&& after.action == Some(action)
                &&& after.rules == self.rules
                &&& after.updates == self.updates
                &&& after.update == self.update
                &&& after.state == self.state
                &&& after.signal == self.signal
            },
        }
    }

    /// Whether `after` is this engine, its queue not empty, once a commit
    /// has been attempted and its outcome installed. Where the last queued
    /// update is `Unresolved`, queue and state stay. Otherwise the queue is
    /// empty and the state is one that the commit can give. The cursor is
    /// not spoken of.
    pub open spec fn commit_outcome(&self, after: Self) -> bool {
        &&& after.action == self.action
        &&& after.rules == self.rules
        &&& after.signal == self.signal
        &&& if self.updates@.last().resolved is Unresolved {
            after.updates == self.updates && after.state == self.state
        } else {
            after.updates@ == Seq::<Update<T, F>>::empty() && self.commits_to(after.state)
        }
    }

    /// Whether `responses` and `snaps` record a rule pass over the update at
    /// the cursor of this engine.
    ///
    /// `responses[j]` is an answer of rule `j`, and `snaps[j]` is the engine
    /// as rule `j` saw it: this engine once it has acted on all earlier
    /// answers, so the update that rule `j` is shown carries every tag that
    /// an earlier rule of the pass attached. The rules answer in the order
    /// in which they were registered, and an answer that ends the pass is the
    /// last one. `snaps` has one more entry: the engine after the last
    /// answer.
    pub open spec fn is_pass(
        &self,
        responses: Seq<RuleResponse<T, F, G>>,
        snaps: Seq<Self>,
    ) -> bool {
        &&& self.update < self.updates.len()
        &&& responses.len() <= self.rules.len()
        &&& snaps.len() == responses.len() + 1
        &&& snaps[0] == *self
        &&& forall|j: int|
            0 <= j < responses.len() ==> {
                &&& call_ensures(
                    self.rules[j],
                    (&snaps[j].state, &snaps[j].updates[self.update as int]),
                    #[trigger] responses[j],
                )
                &&& snaps[j].reacts(responses[j], snaps[j + 1])
                &&& responses[j].halts() ==> j == responses.len() - 1
            }
    }

    /// Whether `after` is this engine once the rule pass recorded in
    /// `responses` and `snaps` is over.
    ///
    /// Where the last answer ended the pass, `after` is the engine that
    /// acted on it. Otherwise every rule has answered; a commit was then
    /// attempted and the cursor moved on by one, whether or not the commit
    /// went through.
    pub open spec fn rule_step_along(
        &self,
        responses: Seq<RuleResponse<T, F, G>>,
        snaps: Seq<Self>,
        after: Self,
    ) -> bool {
        &&& self.is_pass(responses, snaps)
        &&& if responses.len() > 0 && responses.last().halts() {
            after == snaps.last()
        } else {
            &&& responses.len() == self.rules.len()
            &&& snaps.last().commit_outcome(after)
            &&& after.update == self.update + 1
        }
    }

    /// Whether `after` is this engine once the rules have examined the
    /// update at its cursor.
    pub open spec fn rule_step(&self, after: Self) -> bool {
        exists|responses: Seq<RuleResponse<T, F, G>>, snaps: Seq<Self>|
            self.rule_step_along(responses, snaps, after)
    }

    /// Whether `after` is this engine one step later. A pending action is
    /// evaluated and nothing else is done. Without one, the rules examine
    /// the update at the cursor. Without that either, nothing changes.
    pub open spec fn steps_to(&self, after: Self) -> bool {
        if self.action is Some {
            self.action_step(after)
        } else if self.update < self.updates.len() {
            self.rule_step(after)
        } else {
            after == *self
        }
    }

    /// An idle engine over `state` with the given rules: no pending action,
    /// an empty queue, the cursor at 0.
    pub fn new(state: State<T>, rules: Vec<R>) -> (engine: Self)
        requires
            forall|i: int| 0 <= i < rules.len() ==> rule_wf(#[trigger] rules[i]),
        ensures
            engine.wf(),
            engine.action is None,
            engine.rules == rules,
            engine.updates@ == Seq::<Update<T, F>>::empty(),
            engine.update == 0,
            engine.state == state,
            engine.signal == Signal::Quiet,
    {
        Engine {
            action: None,
            rules,
            updates: Vec::new(),
            update: 0,
            state,
            signal: Signal::Quiet,
        }
    }

    /// Attempts to commit the queue. Only the last queued update decides.
    ///
    /// On an empty queue the answer is `Err(EmptyChain)`. Where the last
    /// update is `Unresolved` the answer is `Ok(None)`. In both cases nothing
    /// changes. Otherwise the filters of all queued updates are folded, in
    /// queue order, over a clone of the committed state; the queue is
    /// cleared and the new state is returned. The committed state itself is
    /// left as it was: to install the new one is the caller's part.
    pub fn resolve(&mut self) -> (result: Result<Option<State<T>>, ChainError>)
        requires
            old(self).wf(),
        ensures
            final(self).wf(),
            final(self).action == old(self).action,
            final(self).rules == old(self).rules,
            final(self).update == old(self).update,
            final(self).state == old(self).state,
            final(self).signal == old(self).signal,
            result is Err <==> old(self).updates.len() == 0,
            result is Err ==> result == Err::<Option<State<T>>, ChainError>(
                ChainError::EmptyChain,
            ),
            result == Ok::<Option<State<T>>, ChainError>(None) <==> old(self).updates.len() > 0
                && old(self).updates@.last().resolved is Unresolved,
            !(result matches Ok(Some(_))) ==> final(self).updates == old(self).updates,
            result matches Ok(Some(state)) ==> final(self).updates@ == Seq::<
                Update<T, F>,
            >::empty() && old(self).commits_to(state),
    {
        let n = self.updates.len();
        if n == 0 {
            return Err(ChainError::EmptyChain);
        }
        match self.updates[n - 1].resolved {
            Resolved::Unresolved => {
                return Ok(None);
            },
            _ => {},
        }
        let mut state = self.state.clone();
        let ghost start = state;
        let mut i: usize = 0;
        while i < n
            invariant
                *self == *old(self),
                self.wf(),
                n == self.updates.len(),
                i <= n,
                folds_to(self.updates@.take(i as int), start, state),
            decreases n - i,
        {
            let ghost mid = state;
            state = (self.updates[i].filter)(state);
            proof {
                let longer = self.updates@.take(i + 1);
                assert(longer.drop_last() == self.updates@.take(i as int));
                assert(longer.last() == self.updates@[i as int]);
                assert(call_ensures(longer.last().filter, (mid,), state));
            }
            i += 1;
        }
        proof {
            assert(self.updates@.take(n as int) == self.updates@);
            assert(old(self).state.clones_to(start));
        }
        self.updates.clear();
        Ok(Some(state))
    }

    /// Takes in `response`, the answer of the pending action.
    pub fn receive(&mut self, response: ActionResponse<T, F>)
        requires
            old(self).wf(),
            response.wf(),
        ensures
            final(self).wf(),
            old(self).receives(response, *final(self)),
    {
        match response {
            ActionResponse::Valid(updates) => {
                self.updates = updates;
                self.update = 0;
                self.action = None;
                self.signal = Signal::Quiet;
            },
            ActionResponse::Invalid(reason) => {
                self.action = None;
                self.signal = Signal::Rejected(reason);
            },
            ActionResponse::RequestInput(request) => {
                self.signal = Signal::InputRequested(request);
            },
        }
    }

    /// Evaluates the pending action, if there is one, against the committed
    /// state and takes in its answer. Returns whether there was one.
    pub fn process_action(&mut self) -> (ran: bool)
        requires
            old(self).wf(),
        ensures
            final(self).wf(),
            ran == old(self).action is Some,
            !ran ==> *final(self) == *old(self),
            ran ==> old(self).action_step(*final(self)),
    {
        let response = match &self.action {
            Some(action) => action.apply(&self.state),
            None => {
                return false;
            },
        };
        let ghost answer = response;
        self.receive(response);
        proof {
            let pending = old(self).action->Some_0;
            assert(call_ensures(pending.generator, (&old(self).state,), answer));
        }
        true
    }

    /// Acts on `response`, the answer of a rule to the update at the cursor.
    /// Returns whether the response ends the rule pass.
    ///
    /// Without an update at the cursor there is nothing a rule could have
    /// answered to: the result is `Err(NoCurrentUpdate)` and nothing
    /// changes.
    pub fn react(&mut self, response: RuleResponse<T, F, G>) -> (result: Result<bool, ChainError>)
        requires
            old(self).wf(),
            response.wf(),
        ensures
            final(self).wf(),
            result is Err <==> old(self).update >= old(self).updates.len(),
            result is Err ==> result == Err::<bool, ChainError>(ChainError::NoCurrentUpdate)
                && *final(self) == *old(self),
            result matches Ok(halt) ==> halt == response.halts() && old(self).reacts(
                response,
                *final(self),
            ),
    {
        let c = self.update;
        if c >= self.updates.len() {
            return Err(ChainError::NoCurrentUpdate);
        }
        match response {
            RuleResponse::Skip => Ok(false),
            RuleResponse::Attach(tag) => {
                self.updates[c].tags.insert(tag);
                Ok(false)
            },
            RuleResponse::Divert(action) => {
                self.updates.truncate(c);
                self.action = Some(action);
                Ok(true)
            },
            RuleResponse::Revert(action) => {
                self.updates.clear();
                self.update = 0;
                self.action = Some(action);
                Ok(true)
            },
            RuleResponse::Inject(action) => {
                self.action = Some(action);
                Ok(true)
            },
        }
    }

    /// Attempts a commit if there is an update at the cursor, and installs
    /// the new state where the commit goes through. Returns whether there
    /// was an update at the cursor.
    pub fn process_update(&mut self) -> (ran: bool)
        requires
            old(self).wf(),
        ensures
            final(self).wf(),
            ran == (old(self).update < old(self).updates.len()),
            !ran ==> *final(self) == *old(self),
            ran ==> final(self).update == old(self).update && old(self).commit_outcome(
                *final(self),
            ),
    {
        if self.update >= self.updates.len() {
            return false;
        }
        match self.resolve() {
            Ok(Some(state)) => {
                self.state = state;
            },
            _ => {},
        }
        true
    }

    /// Lets the rules examine the update at the cursor, in the order in
    /// which they were registered. Returns whether there was such an update.
    ///
    /// Each rule is shown the committed state and the update as the rules
    /// before it left it. The first answer that diverts, reverts or injects
    /// is acted on and ends the step. If no rule does so, a commit is
    /// attempted and the cursor moves on by one.
    pub fn process_rule(&mut self) -> (ran: bool)
        requires
            old(self).wf(),
        ensures
            final(self).wf(),
            ran == (old(self).update < old(self).updates.len()),
            !ran ==> *final(self) == *old(self),
            ran ==> old(self).rule_step(*final(self)),
    {
        let c = self.update;
        if c >= self.updates.len() {
            return false;
        }
        let ghost mut responses: Seq<RuleResponse<T, F, G>> = Seq::empty();
        let ghost mut snaps: Seq<Self> = seq![*self];
        let n = self.rules.len();
        let mut i: usize = 0;
        while i < n
            invariant
                self.wf(),
                old(self).wf(),
                n == self.rules.len(),
                i <= n,
                c == self.update == old(self).update,
                c < self.updates.len(),
                self.rules == old(self).rules,
                responses.len() == i,
                snaps.last() == *self,
                old(self).is_pass(responses, snaps),
                i > 0 ==> !responses.last().halts(),
            decreases n - i,
        {
            let response = (self.rules[i])(&self.state, &self.updates[c]);
            let ghost answer = response;
            let ghost seen = *self;
            // There is an update at the cursor, so `react` does not refuse.
            let halt = match self.react(response) {
                Ok(halt) => halt,
                Err(_) => true,
            };
            proof {
                let longer = responses.push(answer);
                let later = snaps.push(*self);
                assert forall|j: int| 0 <= j < longer.len() implies {
                    &&& call_ensures(
                        old(self).rules[j],
                        (&later[j].state, &later[j].updates[c as int]),
                        #[trigger] longer[j],
                    )
                    &&& later[j].reacts(longer[j], later[j + 1])
                    &&& longer[j].halts() ==> j == longer.len() - 1
                } by {
                    if j < i {
                        assert(longer[j] == responses[j]);
                        assert(later[j] == snaps[j] && later[j + 1] == snaps[j + 1]);
                    } else {
                        assert(later[j] == seen && later[j + 1] == *self);
                    }
                }
                responses = longer;
                snaps = later;
            }
            if halt {
                proof {
                    assert(old(self).rule_step_along(responses, snaps, *self));
                }
                return true;
            }
            i += 1;
        }
        self.process_update();
        self.update = self.update + 1;
        proof {
            assert(old(self).rule_step_along(responses, snaps, *self));
        }
        true
    }

    /// Advances the engine by one unit of work at most: the evaluation of
    /// the pending action or, without one, one rule pass over the update at
    /// the cursor. An engine with neither is left as it is.
    pub fn step(&mut self)
        requires
            old(self).wf(),
        ensures
            final(self).wf(),
            old(self).steps_to(*final(self)),
    {
        if self.process_action() {
            return ;
        }
        if self.process_rule() {
            return ;
        }
    }

    /// As long as no answer has ended a rule pass, the engine differs from
    /// the one the pass began with only in tags that the update at the
    /// cursor has gained.
    pub proof fn lemma_pass_gains_tags(
        &self,
        responses: Seq<RuleResponse<T, F, G>>,
        snaps: Seq<Self>,
        j: int,
    )
        requires
            self.is_pass(responses, snaps),
            0 <= j <= responses.len(),
            forall|k: int| 0 <= k < j ==> !(#[trigger] responses[k]).halts(),
        ensures
            self.gains_tags(snaps[j]),
        decreases j,
    {
        if j > 0 {
            self.lemma_pass_gains_tags(responses, snaps, j - 1);
            assert(snaps[j - 1].reacts(responses[j - 1], snaps[j]));
            assert(!responses[j - 1].halts());
        }
    }

    /// A tag that a rule attaches is on the update that every later rule of
    /// the same pass is shown.
    pub proof fn lemma_tag_visible(
        &self,
        responses: Seq<RuleResponse<T, F, G>>,
        snaps: Seq<Self>,
        i: int,
        j: int,
        tag: Tag,
    )
        requires
            self.is_pass(responses, snaps),
            0 <= i < j < responses.len(),
            responses[i] == RuleResponse::<T, F, G>::Attach(tag),
        ensures
            call_ensures(
                self.rules[j],
                (&snaps[j].state, &snaps[j].updates[self.update as int]),
                responses[j],
            ),
            snaps[j].updates[self.update as int].tags@.contains(tag),
        decreases j - i,
    {
        assert forall|k: int| 0 <= k < j implies !(#[trigger] responses[k]).halts() by {}
        self.lemma_pass_gains_tags(responses, snaps, j - 1);
        assert(snaps[j - 1].reacts(responses[j - 1], snaps[j]));
        if i < j - 1 {
            self.lemma_tag_visible(responses, snaps, i, j - 1, tag);
        }
    }

    /// A rule pass that ends in `Divert` leaves exactly the updates before
    /// the cursor in the queue, so the queue is as long as the cursor says,
    /// and makes the diverting action the pending one. Cursor and state
    /// stay.
    pub proof fn lemma_divert_truncates(
        &self,
        responses: Seq<RuleResponse<T, F, G>>,
        snaps: Seq<Self>,
        after: Self,
        action: Action<T, F, G>,
    )
        requires
            self.rule_step_along(responses, snaps, after),
            responses.len() > 0,
            responses.last() == RuleResponse::Divert(action),
        ensures
            after.updates@ == self.updates@.take(self.update as int),
            after.updates.len() == self.update,
            after.action == Some(action),
            after.update == self.update,
            after.state == self.state,
    {
        let m = responses.len() - 1;
        assert forall|k: int| 0 <= k < m implies !(#[trigger] responses[k]).halts() by {}
        self.lemma_pass_gains_tags(responses, snaps, m);
        assert(snaps[m].reacts(responses[m], snaps[m + 1]));
        assert(snaps[m].updates@.take(self.update as int) == self.updates@.take(
            self.update as int,
        ));
    }

    /// A rule pass that ends in `Revert` leaves the queue empty and the
    /// cursor at 0, wherever the cursor stood and however long the queue
    /// was, and makes the reverting action the pending one.
    pub proof fn lemma_revert_clears(
        &self,
        responses: Seq<RuleResponse<T, F, G>>,
        snaps: Seq<Self>,
        after: Self,
        action: Action<T, F, G>,
    )
        requires
            self.rule_step_along(responses, snaps, after),
            responses.len() > 0,
            responses.last() == RuleResponse::Revert(action),
        ensures
            after.updates.len() == 0,
            after.update == 0,
            after.action == Some(action),
            after.state == self.state,
    {
        let m = responses.len() - 1;
        assert forall|k: int| 0 <= k < m implies !(#[trigger] responses[k]).halts() by {}
        self.lemma_pass_gains_tags(responses, snaps, m);
        assert(snaps[m].reacts(responses[m], snaps[m + 1]));
    }

    /// A step never puts a second action beside a pending one: if an action
    /// is pending before the step and one is pending after it, it is the
    /// same action, parked until the host has supplied input.
    pub proof fn lemma_one_action_in_flight(&self, after: Self)
        requires
            self.steps_to(after),
            self.action is Some,
            after.action is Some,
        ensures
            after.action == self.action,
            after.signal is InputRequested,
            after.updates == self.updates,
            after.update == self.update,
            after.state == self.state,
    {
    }
}

} // verus!
