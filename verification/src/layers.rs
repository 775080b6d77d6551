//! Layered attributes: a base value under an ordered list of lenses, each
//! belonging to an update. A query names an update and sees the base value
//! through the lenses of all updates up to it.
//!
//! This is a companion to the engine, for hosts that derive attributes from
//! a committed state. The engine itself does not use it.

use vstd::prelude::*;

verus! {

/// Position token of an update. Update 0 stands for the state before any
/// update.
pub type UpdateId = usize;

/// What a lens does to the value below it.
pub enum Filter<T, M> {
    /// Lets the value through.
    Pass,
    /// Puts its own value in place of the one below.
    New(T),
    /// Computes its value from the value that the field had at the update
    /// before the one queried.
    Mod(M),
}

/// One override of a field: the update it belongs to, what it does, and its
/// value where that has been computed before.
pub struct Lense<T, M> {
    pub update_id: UpdateId,
    pub filter: Filter<T, M>,
    pub cache: Option<T>,
}

/// Where the base value of a field comes from.
pub enum FieldType<T, D> {
    /// A fixed value.
    Constant(T),
    /// A value computed from the state and the update queried.
    Derivative(D),
}

/// An attribute: its base value and the lenses over it, in the order in
/// which they apply.
pub struct Field<T, D, M> {
    pub value: FieldType<T, D>,
    pub lenses: Vec<Lense<T, M>>,
}

/// The index of the first lens at or after `from` that belongs to an update
/// later than `update_id`, or the number of lenses if there is none.
pub open spec fn scan<T, M>(lenses: Seq<Lense<T, M>>, update_id: UpdateId, from: int) -> int
    decreases lenses.len() - from,
{
    if 0 <= from < lenses.len() && lenses[from].update_id <= update_id {
        scan(lenses, update_id, from + 1)
    } else {
        from
    }
}

/// A scan ends between its start and the end of the list.
pub proof fn lemma_scan_bounds<T, M>(lenses: Seq<Lense<T, M>>, update_id: UpdateId, from: int)
    requires
        0 <= from <= lenses.len(),
    ensures
        from <= scan(lenses, update_id, from) <= lenses.len(),
    decreases lenses.len() - from,
{
    if from < lenses.len() && lenses[from].update_id <= update_id {
        lemma_scan_bounds(lenses, update_id, from + 1);
    }
}

impl<T: Copy, D, M> Field<T, D, M> {
    /// How many lenses a query at `update_id` looks through: the leading
    /// lenses that belong to updates up to `update_id`.
    pub open spec fn reach(&self, update_id: UpdateId) -> int {
        scan(self.lenses@, update_id, 0)
    }

    /// A field with the fixed base value `t` and no lenses.
    pub fn new_const(t: T) -> (field: Self)
        ensures
            field.value == FieldType::<T, D>::Constant(t),
            field.lenses@ == Seq::<Lense<T, M>>::empty(),
    {
        Field { value: FieldType::Constant(t), lenses: Vec::new() }
    }

    /// A field whose base value `f` computes, and no lenses.
    pub fn new_dyn(f: D) -> (field: Self)
        ensures
            field.value == FieldType::<T, D>::Derivative(f),
            field.lenses@ == Seq::<Lense<T, M>>::empty(),
    {
        Field { value: FieldType::Derivative(f), lenses: Vec::new() }
    }

    /// The functions of the field accept every argument, and no lens of
    /// update 0 that a query looks through has to compute its value from an
    /// update before: there is none.
    pub open spec fn wf<S>(&self) -> bool where D: Fn(&S, UpdateId) -> T, M: Fn(T) -> T {
        &&& self.value matches FieldType::Derivative(f) ==> forall|s: S, id: UpdateId|
            call_requires(f, (&s, id))
        &&& forall|i: int|
            0 <= i < self.lenses.len() ==> ((#[trigger] self.lenses[i]).filter matches Filter::Mod(
                m,
            ) ==> forall|t: T| call_requires(m, (t,)))
        &&& forall|i: int|
            0 <= i < self.reach(0) ==> (#[trigger] self.lenses[i]).cache is Some
                || !(self.lenses[i].filter is Mod)
    }

    /// Whether `out` is a base value of the field for a query at
    /// `update_id`.
    pub open spec fn base_gives<S>(&self, update_id: UpdateId, state: S, out: T) -> bool where
        D: Fn(&S, UpdateId) -> T,
     {
        match self.value {
            FieldType::Constant(t) => out == t,
            FieldType::Derivative(f) => call_ensures(f, (&state, update_id), out),
        }
    }

    /// Whether `out` is a value of the field for a query at `update_id`, seen
    /// through the first `n` lenses.
    ///
    /// Through no lens it is a base value. A lens with a cached value shows
    /// that value. Otherwise a `Pass` lens shows what is below it, a `New`
    /// lens its own value, and a `Mod` lens what its function makes of a
    /// value that the field has at the update before, seen through all
    /// lenses that a query there looks through.
    pub open spec fn yields<S>(&self, update_id: UpdateId, state: S, n: int, out: T) -> bool where
        D: Fn(&S, UpdateId) -> T,
        M: Fn(T) -> T,

        decreases update_id, n,
    {
        if n <= 0 {
            self.base_gives(update_id, state, out)
        } else {
            let lense = self.lenses[n - 1];
            match lense.cache {
                Some(cached) => out == cached,
                None => match lense.filter {
                    Filter::Pass => self.yields(update_id, state, n - 1, out),
                    Filter::New(t) => out == t,
                    Filter::Mod(m) => update_id > 0 && exists|below: T|
                        self.yields(
                            (update_id - 1) as usize,
                            state,
                            self.reach((update_id - 1) as usize),
                            below,
                        ) && #[trigger] call_ensures(m, (below,), out),
                },
            }
        }
    }

    /// The value of the field at `update_id`: the base value seen through
    /// the lenses, in their order, up to the first that belongs to a later
    /// update.
    pub fn at<S>(&self, update_id: UpdateId, state: &S) -> (out: T) where
        D: Fn(&S, UpdateId) -> T,
        M: Fn(T) -> T,

        requires
            self.wf::<S>(),
        ensures
            self.yields(update_id, *state, self.reach(update_id), out),
        decreases update_id,
    {
        let mut value = match &self.value {
            FieldType::Constant(t) => *t,
            FieldType::Derivative(f) => f(state, update_id),
        };
        let mut i: usize = 0;
        while i < self.lenses.len() && self.lenses[i].update_id <= update_id
            invariant
                self.wf::<S>(),
                i <= self.lenses.len(),
                scan(self.lenses@, update_id, i as int) == self.reach(update_id),
                self.yields(update_id, *state, i as int, value),
            decreases self.lenses.len() - i,
        {
            let lense = &self.lenses[i];
            match &lense.cache {
                Some(cached) => {
                    value = *cached;
                },
                None => match &lense.filter {
                    Filter::Pass => {},
                    Filter::New(t) => {
                        value = *t;
                    },
                    Filter::Mod(m) => {
                        proof {
                            if update_id == 0 {
                                lemma_scan_bounds(self.lenses@, 0, i as int + 1);
                            }
                        }
                        let below = self.at(update_id - 1, state);
                        value = m(below);
                    },
                },
            }
            i += 1;
        }
        value
    }

    /// The base value of the field: what it is before any update.
    pub fn base<S>(&self, state: &S) -> (out: T) where D: Fn(&S, UpdateId) -> T
        requires
            self.value matches FieldType::Derivative(f) ==> call_requires(f, (state, 0usize)),
        ensures
            self.base_gives(0, *state, out),
    {
        match &self.value {
            FieldType::Constant(t) => *t,
            FieldType::Derivative(f) => f(state, 0),
        }
    }
}

} // verus!
