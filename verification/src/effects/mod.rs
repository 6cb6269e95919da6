//! Side effects whose api is chosen by a [`StateTransformer`].
use vstd::prelude::*;

use core::marker::PhantomData;

use crate::{
    state_steps, lemma_mutation_steps, mutated_as, registered_ids, Capsule, Container, SideEffect,
    SideEffectRegistrar, SideEffectStateMutater, SideEffectTxnRunner,
};

pub mod cloneable;
pub mod effect_lifetime_fixers;
pub mod multi;
pub mod overridable_capsule;
pub mod state_transformers;

pub use effect_lifetime_fixers::{EffectLifetimeFixer0, EffectLifetimeFixer1, EffectLifetimeFixer2};
pub use multi::{multi, MultiSideEffectRegistrar};
pub use overridable_capsule::{overridable_capsule, OverridableCapsule};
pub use state_transformers::{Cloned, LazyCloned, LazyMutRef, LazyRef, MutRef, Ref};

verus! {

/// A way to re-use the same exact side effect code while providing a different api
/// based on the data you have and the data you want in return (such as a [`Clone`] or a ref).
pub trait StateTransformer<'a>: Sized + 'a {
    type Input;

    type Inner;

    type Output;

    /// Whether [`StateTransformer::from_input`] may be called on `input`.
    spec fn accepts(input: Self::Input) -> bool;

    /// Whether `st` is a state that [`StateTransformer::from_input`] can make from `input`.
    spec fn made_from(input: Self::Input, st: Self) -> bool;

    /// Whether `out` is what [`StateTransformer::as_output`] gives for the state `self`.
    spec fn gives(&self, out: Self::Output) -> bool;

    /// The inner state that [`StateTransformer::as_inner`] exposes.
    spec fn spec_inner(&self) -> Self::Inner;

    fn from_input(input: Self::Input) -> (st: Self)
        requires
            Self::accepts(input),
        ensures
            Self::made_from(input, st),
    ;

    fn as_inner(&mut self) -> (inner: &mut Self::Inner)
        ensures
            *inner == old(self).spec_inner(),
            final(self).spec_inner() == *final(inner),
    ;

    fn as_output(&'a mut self) -> (out: Self::Output)
        ensures
            old(self).gives(out),
    ;
}

/// `out` is what a side effect with the state transformer `ST` gives at the start of a
/// build: the output of the state kept from the last build, or, on the first build, of a
/// state made from `initial`.
pub open spec fn gives_at_build<'a, ST: StateTransformer<'a>>(
    kept: Option<ST>,
    initial: ST::Input,
    out: ST::Output,
) -> bool {
    match kept {
        Some(st) => st.gives(out),
        None => exists|st: ST| #[trigger] ST::made_from(initial, st) && st.gives(out),
    }
}

/// A no-op side effect that specifies non-idempotence.
///
/// Useful so that a capsule can be treated as a listener/will not get
/// idempotent garbage collected from a container.
pub fn as_listener() {
}

/// Like [`SideEffectRegistrar::raw`], but the initial state is made from `initial` (see
/// [`StateTransformer::from_input`]) only when the side effect has no state yet, so that a
/// lazily-evaluated input is evaluated on the first build only.
fn raw_from_input<'a, ST: StateTransformer<'a>>(registrar: SideEffectRegistrar<'a, ST>, initial: ST::Input) -> (r: (
    &'a mut ST,
    SideEffectStateMutater,
    SideEffectTxnRunner,
))
    requires
        ST::accepts(initial),
    ensures
        match *old(registrar.side_effect) {
            Some(s) => *r.0 == s,
            None => ST::made_from(initial, *r.0),
        },
        *final(registrar.side_effect) == Some(*final(r.0)),
        r.1.id == registrar.id,
{
    let ghost input = initial;
    let init = move || -> (st: ST)
        requires
            ST::accepts(input),
        ensures
            ST::made_from(input, st),
        { ST::from_input(initial) };
    registrar.raw_lazy(init)
}

/// The side effect of [`raw`].
#[verifier::reject_recursive_types(ST)]
pub struct RawEffect<'a, ST: StateTransformer<'a>> {
    initial: ST::Input,
    _transformer: PhantomData<&'a ST>,
}

impl<'a, ST: StateTransformer<'a>> RawEffect<'a, ST> {
    #[verifier::type_invariant]
    spec fn inv(self) -> bool {
        ST::accepts(self.initial)
    }

    pub closed spec fn spec_initial(self) -> ST::Input {
        self.initial
    }
}

impl<'a, ST: StateTransformer<'a>> SideEffect<'a, ST> for RawEffect<'a, ST> {
    type Api = (ST::Output, SideEffectStateMutater, SideEffectTxnRunner);

    fn build(self, registrar: SideEffectRegistrar<'a, ST>) -> (api: Self::Api)
        ensures
            gives_at_build(*old(registrar.side_effect), self.spec_initial(), api.0),
            exists|t: &'a mut ST|
                #[trigger] (*t).gives(api.0) && match *old(registrar.side_effect) {
                    Some(s) => *t == s,
                    None => ST::made_from(self.spec_initial(), *t),
                } && *final(registrar.side_effect) == Some(*final(t)),
            api.1.id == registrar.id,
    {
        proof {
            use_type_invariant(&self);
        }
        let (transformer, mutater, txn_runner) = raw_from_input(registrar, self.initial);
        let ghost t = transformer;
        let output = transformer.as_output();
        assert((*t).gives(output));
        assert(*final(registrar.side_effect) == Some(*final(t)));
        assert(match *old(registrar.side_effect) {
            Some(s) => *t == s,
            None => ST::made_from(self.spec_initial(), *t),
        });
        let api = (output, mutater, txn_runner);
        assert((*t).gives(api.0));
        api
    }
}

/// Analogous to [`SideEffectRegistrar::raw`], but uses a [`StateTransformer`] to specify the api.
pub fn raw<'a, ST: StateTransformer<'a>>(initial: ST::Input) -> (e: RawEffect<'a, ST>)
    requires
        ST::accepts(initial),
    ensures
        e.spec_initial() == initial,
{
    RawEffect { initial, _transformer: PhantomData }
}

/// The side effect of [`state`].
#[verifier::reject_recursive_types(ST)]
pub struct StateEffect<'a, ST: StateTransformer<'a>> {
    initial: ST::Input,
    _transformer: PhantomData<&'a ST>,
}

impl<'a, ST: StateTransformer<'a>> StateEffect<'a, ST> {
    #[verifier::type_invariant]
    spec fn inv(self) -> bool {
        ST::accepts(self.initial)
    }

    pub closed spec fn spec_initial(self) -> ST::Input {
        self.initial
    }
}

impl<'a, ST: StateTransformer<'a>> SideEffect<'a, ST> for StateEffect<'a, ST> {
    type Api = (ST::Output, SideEffectStateMutater);

    fn build(self, registrar: SideEffectRegistrar<'a, ST>) -> (api: Self::Api)
        ensures
            gives_at_build(*old(registrar.side_effect), self.spec_initial(), api.0),
            api.1.id == registrar.id,
    {
        proof {
            use_type_invariant(&self);
        }
        let (transformer, set_state, _) = raw_from_input(registrar, self.initial);
        (transformer.as_output(), set_state)
    }
}

/// Similar to `useState` from React hooks: provides the state (through `ST`) and the handle
/// that sets it (see [`set_inner`]).
pub fn state<'a, ST: StateTransformer<'a>>(initial: ST::Input) -> (e: StateEffect<'a, ST>)
    requires
        ST::accepts(initial),
    ensures
        e.spec_initial() == initial,
{
    StateEffect { initial, _transformer: PhantomData }
}

/// The side effect of [`value`].
#[verifier::reject_recursive_types(ST)]
pub struct ValueEffect<'a, ST: StateTransformer<'a>> {
    initial: ST::Input,
    _transformer: PhantomData<&'a ST>,
}

impl<'a, ST: StateTransformer<'a>> ValueEffect<'a, ST> {
    #[verifier::type_invariant]
    spec fn inv(self) -> bool {
        ST::accepts(self.initial)
    }

    pub closed spec fn spec_initial(self) -> ST::Input {
        self.initial
    }
}

impl<'a, ST: StateTransformer<'a>> SideEffect<'a, ST> for ValueEffect<'a, ST> {
    type Api = ST::Output;

    fn build(self, registrar: SideEffectRegistrar<'a, ST>) -> (api: Self::Api)
        ensures
            gives_at_build(*old(registrar.side_effect), self.spec_initial(), api),
    {
        proof {
            use_type_invariant(&self);
        }
        let (transformer, _, _) = raw_from_input(registrar, self.initial);
        transformer.as_output()
    }
}

/// Provides the same given value across builds.
pub fn value<'a, ST: StateTransformer<'a>>(initial: ST::Input) -> (e: ValueEffect<'a, ST>)
    requires
        ST::accepts(initial),
    ensures
        e.spec_initial() == initial,
{
    ValueEffect { initial, _transformer: PhantomData }
}

/// The side effect of [`is_first_build`].
pub struct IsFirstBuildEffect;

impl<'a> SideEffect<'a, MutRef<bool>> for IsFirstBuildEffect {
    type Api = bool;

    fn build(self, registrar: SideEffectRegistrar<'a, MutRef<bool>>) -> (first: bool)
        ensures
            first == (*old(registrar.side_effect) != Some(MutRef(true))),
            *final(registrar.side_effect) == Some(MutRef(true)),
    {
        let (state, _, _) = registrar.raw(MutRef(false));
        let has_built_before = state.as_output();
        let is_first_build = !*has_built_before;
        *has_built_before = true;
        is_first_build
    }
}

/// Provides whether or not this is the first build being called.
pub fn is_first_build() -> IsFirstBuildEffect {
    IsFirstBuildEffect
}

/// The side effect of [`reducer`].
#[verifier::reject_recursive_types(ST)]
pub struct ReducerEffect<'a, ST: StateTransformer<'a>, R> {
    initial: ST::Input,
    reducer: R,
    _transformer: PhantomData<&'a ST>,
}

impl<'a, ST: StateTransformer<'a>, R> ReducerEffect<'a, ST, R> {
    #[verifier::type_invariant]
    spec fn inv(self) -> bool {
        ST::accepts(self.initial)
    }

    pub closed spec fn spec_initial(self) -> ST::Input {
        self.initial
    }

    pub closed spec fn spec_reducer(self) -> R {
        self.reducer
    }
}

/// Dispatches actions to a [`reducer`] side effect; see [`Dispatcher::dispatch`].
#[derive(Clone, Debug)]
pub struct Dispatcher<R> {
    pub mutater: SideEffectStateMutater,
    pub reducer: R,
}

impl<'a, ST: StateTransformer<'a>, R> SideEffect<'a, ST> for ReducerEffect<'a, ST, R> {
    type Api = (ST::Output, Dispatcher<R>);

    fn build(self, registrar: SideEffectRegistrar<'a, ST>) -> (api: Self::Api)
        ensures
            gives_at_build(*old(registrar.side_effect), self.spec_initial(), api.0),
            api.1.mutater.id == registrar.id,
            api.1.reducer == self.spec_reducer(),
    {
        proof {
            use_type_invariant(&self);
        }
        let ReducerEffect { initial, reducer, _transformer } = self;
        let (transformer, mutater, _) = raw_from_input(registrar, initial);
        (transformer.as_output(), Dispatcher { mutater, reducer })
    }
}

/// Models the state reducer pattern via side effects (similar to `useReducer` from React hooks):
/// the state (through `ST`) and the dispatcher of actions.
///
/// This should normally *not* be used with [`MutRef`].
pub fn reducer<'a, ST: StateTransformer<'a>, R>(initial: ST::Input, reduce: R) -> (e: ReducerEffect<'a, ST, R>)
    requires
        ST::accepts(initial),
    ensures
        e.spec_initial() == initial,
        e.spec_reducer() == reduce,
{
    ReducerEffect { initial, reducer: reduce, _transformer: PhantomData }
}

/// `reducer` may be called on every inner state with `action`.
pub open spec fn inner_reducer_callable<I, A, R: Fn(&I, A) -> I>(reducer: &R, action: A) -> bool {
    forall|st: &I| call_requires(*reducer, (st, action))
}

impl<R> Dispatcher<R> {
    /// Replaces the inner state of the reducer with `reducer(&inner, action)` and rebuilds
    /// its capsule (see [`Container::run_side_effect_mutation`]).
    pub fn dispatch<'a, C: Capsule<State = ST>, ST: StateTransformer<'a>, A>(
        &self,
        container: &mut Container<C>,
        action: A,
    )
        where
            R: Fn(&ST::Inner, A) -> ST::Inner,
        requires
            registered_ids(old(container).graph(), self.mutater.id.spec_raw()).contains(self.mutater.id.spec_raw()),
            forall|st: &ST::Inner, a: A| call_requires(self.reducer, (st, a)),
        ensures
            mutated_as(*old(container), *final(container), self.mutater.id.spec_raw()),
            state_steps(*old(container), *final(container), self.mutater.id.spec_raw(), inner_reduced::<'a, ST, A, R>(self.reducer, action)),
    {
        let reducer = &self.reducer;
        let ghost act = action;
        let step = move |st: &mut ST|
            requires inner_reducer_callable(reducer, action)
            ensures call_ensures(*reducer, (&old(st).spec_inner(), act), final(st).spec_inner())
        {
            let inner = st.as_inner();
            let next = reducer(&*inner, action);
            *inner = next;
        };
        let ghost mutation = step;
        let ghost before = *container;
        container.run_side_effect_mutation(&self.mutater, step);
        proof {
            lemma_mutation_steps(before, *container, self.mutater.id.spec_raw(), mutation, inner_reduced::<'a, ST, A, R>(self.reducer, act));
        }
    }
}

/// Replaces the inner state of the transformer `ST` of the capsule of `mutater` with
/// `new_state` and rebuilds the capsule (see [`Container::run_side_effect_mutation`]).
pub fn set_inner<'a, C: Capsule<State = ST>, ST: StateTransformer<'a>>(
    container: &mut Container<C>,
    mutater: &SideEffectStateMutater,
    new_state: ST::Inner,
)
    requires
        registered_ids(old(container).graph(), mutater.id.spec_raw()).contains(mutater.id.spec_raw()),
    ensures
        mutated_as(*old(container), *final(container), mutater.id.spec_raw()),
        state_steps(*old(container), *final(container), mutater.id.spec_raw(), inner_set_to::<'a, ST>(new_state)),
{
    let ghost v = new_state;
    let set = move |st: &mut ST| ensures final(st).spec_inner() == v { *st.as_inner() = new_state; };
    let ghost mutation = set;
    let ghost before = *container;
    container.run_side_effect_mutation(mutater, set);
    proof {
        lemma_mutation_steps(before, *container, mutater.id.spec_raw(), mutation, inner_set_to::<'a, ST>(v));
    }
}

/// The step of a state whose inner state is set to `value`.
pub open spec fn inner_set_to<'a, ST: StateTransformer<'a>>(value: ST::Inner) -> spec_fn(ST, ST) -> bool {
    |s: ST, t: ST| t.spec_inner() == value
}

/// The step of a state whose inner state is reduced with `action`.
pub open spec fn inner_reduced<'a, ST: StateTransformer<'a>, A, R: Fn(&ST::Inner, A) -> ST::Inner>(
    reducer: R,
    action: A,
) -> spec_fn(ST, ST) -> bool {
    |s: ST, t: ST| call_ensures(reducer, (&s.spec_inner(), action), t.spec_inner())
}

} // verus!
