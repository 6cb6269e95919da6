//! Side effects that hand out clones of their state rather than references to it.
use vstd::prelude::*;

use core::marker::PhantomData;

use crate::side_effects;
use crate::{SideEffect, SideEffectRegistrar, SideEffectStateMutater};

verus! {

/// The state a side effect starts a build with: the kept state, or `initial` on the first build.
pub open spec fn current_or<T>(kept: Option<T>, initial: T) -> T {
    match kept {
        Some(s) => s,
        None => initial,
    }
}

/// The side effect of [`state`].
pub struct StateEffect<T> {
    pub initial: T,
}

impl<'a, T: Clone + 'a> SideEffect<'a, T> for StateEffect<T> {
    type Api = (T, SideEffectStateMutater);

    fn build(self, registrar: SideEffectRegistrar<'a, T>) -> (api: Self::Api)
        ensures
            cloned(current_or(*old(registrar.side_effect), self.initial), api.0),
            *final(registrar.side_effect) == Some(current_or(*old(registrar.side_effect), self.initial)),
            api.1.id == registrar.id,
    {
        let (state, set_state) = side_effects::state(self.initial).build(registrar);
        (state.clone(), set_state)
    }
}

/// A clone of the state (`initial` on the first build) and the handle that sets it
/// (see [`crate::Container::set_state`]).
pub fn state<T: Clone>(initial: T) -> (e: StateEffect<T>)
    ensures
        e.initial == initial,
{
    StateEffect { initial }
}

/// The side effect of [`lazy_state`].
#[verifier::reject_recursive_types(T)]
pub struct LazyStateEffect<T, F: FnOnce() -> T> {
    init: F,
    _output: PhantomData<T>,
}

impl<T, F: FnOnce() -> T> LazyStateEffect<T, F> {
    #[verifier::type_invariant]
    spec fn inv(self) -> bool {
        call_requires(self.init, ())
    }

    pub closed spec fn spec_init(self) -> F {
        self.init
    }
}

impl<'a, T: Clone + 'a, F: FnOnce() -> T> SideEffect<'a, T> for LazyStateEffect<T, F> {
    type Api = (T, SideEffectStateMutater);

    fn build(self, registrar: SideEffectRegistrar<'a, T>) -> (api: Self::Api)
        ensures
            match *old(registrar.side_effect) {
                Some(s) => cloned(s, api.0) && *final(registrar.side_effect) == Some(s),
                None => exists|s: T| call_ensures(self.spec_init(), (), s) && cloned(s, api.0)
                    && *final(registrar.side_effect) == Some(s),
            },
            api.1.id == registrar.id,
    {
        proof {
            use_type_invariant(&self);
        }
        let (state, set_state, _) = registrar.raw_lazy(self.init);
        let ghost kept = *state;
        let api = (state.clone(), set_state);
        assert(cloned(kept, api.0));
        api
    }
}

/// Like [`state`], but the initial state is computed by `init`, which is called only on the
/// first build.
pub fn lazy_state<T: Clone, F: FnOnce() -> T>(init: F) -> (e: LazyStateEffect<T, F>)
    requires
        call_requires(init, ()),
    ensures
        e.spec_init() == init,
{
    LazyStateEffect { init, _output: PhantomData }
}

/// The side effect of [`value`].
pub struct ValueEffect<T> {
    pub value: T,
}

impl<'a, T: Clone + 'a> SideEffect<'a, T> for ValueEffect<T> {
    type Api = T;

    fn build(self, registrar: SideEffectRegistrar<'a, T>) -> (api: T)
        ensures
            cloned(current_or(*old(registrar.side_effect), self.value), api),
            *final(registrar.side_effect) == Some(current_or(*old(registrar.side_effect), self.value)),
    {
        let state = side_effects::value(self.value).build(registrar);
        state.clone()
    }
}

/// A clone of the same given value across builds (`value` on the first build).
pub fn value<T: Clone>(initial: T) -> (e: ValueEffect<T>)
    ensures
        e.value == initial,
{
    ValueEffect { value: initial }
}

/// The side effect of [`lazy_value`].
#[verifier::reject_recursive_types(T)]
pub struct LazyValueEffect<T, F: FnOnce() -> T> {
    init: F,
    _output: PhantomData<T>,
}

impl<T, F: FnOnce() -> T> LazyValueEffect<T, F> {
    #[verifier::type_invariant]
    spec fn inv(self) -> bool {
        call_requires(self.init, ())
    }

    pub closed spec fn spec_init(self) -> F {
        self.init
    }
}

impl<'a, T: Clone + 'a, F: FnOnce() -> T> SideEffect<'a, T> for LazyValueEffect<T, F> {
    type Api = T;

    fn build(self, registrar: SideEffectRegistrar<'a, T>) -> (api: T)
        ensures
            match *old(registrar.side_effect) {
                Some(s) => cloned(s, api) && *final(registrar.side_effect) == Some(s),
                None => exists|s: T| call_ensures(self.spec_init(), (), s) && cloned(s, api)
                    && *final(registrar.side_effect) == Some(s),
            },
    {
        proof {
            use_type_invariant(&self);
        }
        let (state, _, _) = registrar.raw_lazy(self.init);
        let ghost kept = *state;
        let api = state.clone();
        assert(cloned(kept, api));
        api
    }
}

/// Like [`value`], but the value is computed by `init`, which is called only on the first build.
pub fn lazy_value<T: Clone, F: FnOnce() -> T>(init: F) -> (e: LazyValueEffect<T, F>)
    requires
        call_requires(init, ()),
    ensures
        e.spec_init() == init,
{
    LazyValueEffect { init, _output: PhantomData }
}

} // verus!
