//! The built-in side effects.
use vstd::prelude::*;

use core::marker::PhantomData;

use crate::{
    state_steps, lemma_mutation_steps, lemma_state_steps_weaken, set_to, mutated_as, registered_ids, Capsule, Container, SideEffect,
    SideEffectRegistrar, SideEffectStateMutater,
};

verus! {

/// The side effect of [`raw`].
pub struct RawEffect<T> {
    pub initial: T,
}

impl<'a, T: 'a> SideEffect<'a, T> for RawEffect<T> {
    type Api = (&'a mut T, SideEffectStateMutater);

    fn build(self, registrar: SideEffectRegistrar<'a, T>) -> (api: Self::Api)
        ensures
            *api.0 == match *old(registrar.side_effect) {
                Some(s) => s,
                None => self.initial,
            },
            *final(registrar.side_effect) == Some(*final(api.0)),
            api.1.id == registrar.id,
    {
        let (state, mutater, _) = registrar.raw(self.initial);
        (state, mutater)
    }
}

/// The state of the side effect (`initial` on the first build), together with the handle
/// that mutates it (see [`Container::run_side_effect_mutation`]).
pub fn raw<T>(initial: T) -> (e: RawEffect<T>)
    ensures
        e.initial == initial,
{
    RawEffect { initial }
}

/// The side effect of [`state`].
pub struct StateEffect<T> {
    pub initial: T,
}

impl<'a, T: 'a> SideEffect<'a, T> for StateEffect<T> {
    type Api = (&'a mut T, SideEffectStateMutater);

    fn build(self, registrar: SideEffectRegistrar<'a, T>) -> (api: Self::Api)
        ensures
            *api.0 == match *old(registrar.side_effect) {
                Some(s) => s,
                None => self.initial,
            },
            *final(registrar.side_effect) == Some(*final(api.0)),
            api.1.id == registrar.id,
    {
        let (state, set_state, _) = registrar.raw(self.initial);
        (state, set_state)
    }
}

/// Similar to `useState` from React hooks: the state (`initial` on the first build) and the
/// handle that sets it (see [`Container::set_state`]).
pub fn state<T>(initial: T) -> (e: StateEffect<T>)
    ensures
        e.initial == initial,
{
    StateEffect { initial }
}

/// The side effect of [`lazy_state`].
#[verifier::reject_recursive_types(T)]
pub struct LazyStateEffect<T, F: FnOnce() -> T> {
    init: F,
    _output: PhantomData<T>,
}

impl<T, F: FnOnce() -> T> LazyStateEffect<T, F> {
    #[verifier::type_invariant]
    spec fn inv(self) -> bool {
        call_requires(self.init, ())
    }

    pub closed spec fn spec_init(self) -> F {
        self.init
    }
}

impl<'a, T: 'a, F: FnOnce() -> T> SideEffect<'a, T> for LazyStateEffect<T, F> {
    type Api = (&'a mut T, SideEffectStateMutater);

    fn build(self, registrar: SideEffectRegistrar<'a, T>) -> (api: Self::Api)
        ensures
            match *old(registrar.side_effect) {
                Some(s) => *api.0 == s,
                None => call_ensures(self.spec_init(), (), *api.0),
            },
            *final(registrar.side_effect) == Some(*final(api.0)),
            api.1.id == registrar.id,
    {
        proof {
            use_type_invariant(&self);
        }
        let (state, set_state, _) = registrar.raw_lazy(self.init);
        (state, set_state)
    }
}

/// Like [`state`], but the initial state is computed by `init`, which is called only on the
/// first build.
pub fn lazy_state<T, F: FnOnce() -> T>(init: F) -> (e: LazyStateEffect<T, F>)
    requires
        call_requires(init, ()),
    ensures
        e.spec_init() == init,
{
    LazyStateEffect { init, _output: PhantomData }
}

/// The side effect of [`value`].
pub struct ValueEffect<T> {
    pub value: T,
}

impl<'a, T: 'a> SideEffect<'a, T> for ValueEffect<T> {
    type Api = &'a mut T;

    fn build(self, registrar: SideEffectRegistrar<'a, T>) -> (api: Self::Api)
        ensures
            *api == match *old(registrar.side_effect) {
                Some(s) => s,
                None => self.value,
            },
            *final(registrar.side_effect) == Some(*final(api)),
    {
        let (state, _, _) = registrar.raw(self.value);
        state
    }
}

/// Provides the same given value across builds (`value` on the first build).
pub fn value<T>(initial: T) -> (e: ValueEffect<T>)
    ensures
        e.value == initial,
{
    ValueEffect { value: initial }
}

/// The side effect of [`lazy_value`].
#[verifier::reject_recursive_types(T)]
pub struct LazyValueEffect<T, F: FnOnce() -> T> {
    init: F,
    _output: PhantomData<T>,
}

impl<T, F: FnOnce() -> T> LazyValueEffect<T, F> {
    #[verifier::type_invariant]
    spec fn inv(self) -> bool {
        call_requires(self.init, ())
    }

    pub closed spec fn spec_init(self) -> F {
        self.init
    }
}

impl<'a, T: 'a, F: FnOnce() -> T> SideEffect<'a, T> for LazyValueEffect<T, F> {
    type Api = &'a mut T;

    fn build(self, registrar: SideEffectRegistrar<'a, T>) -> (api: Self::Api)
        ensures
            match *old(registrar.side_effect) {
                Some(s) => *api == s,
                None => call_ensures(self.spec_init(), (), *api),
            },
            *final(registrar.side_effect) == Some(*final(api)),
    {
        proof {
            use_type_invariant(&self);
        }
        let (state, _, _) = registrar.raw_lazy(self.init);
        state
    }
}

/// Like [`value`], but the value is computed by `init`, which is called only on the first build.
pub fn lazy_value<T, F: FnOnce() -> T>(init: F) -> (e: LazyValueEffect<T, F>)
    requires
        call_requires(init, ()),
    ensures
        e.spec_init() == init,
{
    LazyValueEffect { init, _output: PhantomData }
}

/// The side effect of [`is_first_build`].
pub struct IsFirstBuildEffect;

impl<'a> SideEffect<'a, bool> for IsFirstBuildEffect {
    type Api = bool;

    fn build(self, registrar: SideEffectRegistrar<'a, bool>) -> (first: bool)
        ensures
            first == (*old(registrar.side_effect) != Some(true)),
            *final(registrar.side_effect) == Some(true),
    {
        let has_built_before = value(false).build(registrar);
        let is_first_build = !*has_built_before;
        *has_built_before = true;
        is_first_build
    }
}

/// Provides whether or not this is the first build being called.
pub fn is_first_build() -> IsFirstBuildEffect {
    IsFirstBuildEffect
}

/// The side effect of [`rebuilder`].
pub struct RebuilderEffect;

impl<'a> SideEffect<'a, ()> for RebuilderEffect {
    type Api = SideEffectStateMutater;

    fn build(self, registrar: SideEffectRegistrar<'a, ()>) -> (api: Self::Api)
        ensures
            api.id == registrar.id,
            *final(registrar.side_effect) == Some(()),
    {
        let (_, rebuild, _) = registrar.raw(());
        rebuild
    }
}

/// A side effect that provides the handle that triggers rebuilds (see [`Container::rebuild`]).
/// Only use this side effect when you don't have any state that you wish to update in the
/// rebuild (which is extremely rare).
pub fn rebuilder() -> RebuilderEffect {
    RebuilderEffect
}

/// The side effect of [`run_once`].
pub struct RunOnceEffect<F: FnOnce()> {
    f: F,
}

impl<F: FnOnce()> RunOnceEffect<F> {
    #[verifier::type_invariant]
    spec fn inv(self) -> bool {
        call_requires(self.f, ())
    }

    pub closed spec fn spec_f(self) -> F {
        self.f
    }
}

impl<'a, F: FnOnce()> SideEffect<'a, ()> for RunOnceEffect<F> {
    type Api = ();

    fn build(self, registrar: SideEffectRegistrar<'a, ()>)
        ensures
            *final(registrar.side_effect) == Some(()),
            *old(registrar.side_effect) is None ==> call_ensures(self.spec_f(), (), ()),
    {
        proof {
            use_type_invariant(&self);
        }
        registrar.register(lazy_value(self.f));
    }
}

/// Runs `f` on the first build only.
pub fn run_once<F: FnOnce()>(f: F) -> (e: RunOnceEffect<F>)
    requires
        call_requires(f, ()),
    ensures
        e.spec_f() == f,
{
    RunOnceEffect { f }
}

/// The side effect of [`reducer`].
pub struct ReducerEffect<S, R> {
    pub reducer: R,
    pub initial: S,
}

/// Dispatches actions to a reducer side effect; see [`ReducerDispatch::dispatch`].
///
/// It keeps the state of the build that handed it out, and reduces that state.
#[derive(Clone, Debug)]
pub struct ReducerDispatch<S, R> {
    pub mutater: SideEffectStateMutater,
    pub reducer: R,
    pub state: S,
}

impl<'a, S: Clone + 'a, R> SideEffect<'a, S> for ReducerEffect<S, R> {
    type Api = (S, ReducerDispatch<S, R>);

    fn build(self, registrar: SideEffectRegistrar<'a, S>) -> (api: Self::Api)
        ensures
            cloned(
                match *old(registrar.side_effect) {
                    Some(s) => s,
                    None => self.initial,
                },
                api.0,
            ),
            cloned(
                match *old(registrar.side_effect) {
                    Some(s) => s,
                    None => self.initial,
                },
                api.1.state,
            ),
            *final(registrar.side_effect) == Some(
                match *old(registrar.side_effect) {
                    Some(s) => s,
                    None => self.initial,
                },
            ),
            api.1.mutater.id == registrar.id,
            api.1.reducer == self.reducer,
    {
        let (state, set_state) = state(self.initial).build(registrar);
        let current = state.clone();
        let captured = state.clone();
        (current, ReducerDispatch { mutater: set_state, reducer: self.reducer, state: captured })
    }
}

/// Models the state reducer pattern via side effects (similar to `useReducer` from React hooks):
/// the current state (`initial` on the first build) and the dispatcher of actions.
pub fn reducer<S, R>(reduce: R, initial: S) -> (e: ReducerEffect<S, R>)
    ensures
        e.reducer == reduce,
        e.initial == initial,
{
    ReducerEffect { reducer: reduce, initial }
}

/// The side effect of [`lazy_reducer`].
#[verifier::reject_recursive_types(S)]
pub struct LazyReducerEffect<S, R, F: FnOnce() -> S> {
    reducer: R,
    initial: F,
    _state: PhantomData<S>,
}

impl<S, R, F: FnOnce() -> S> LazyReducerEffect<S, R, F> {
    #[verifier::type_invariant]
    spec fn inv(self) -> bool {
        call_requires(self.initial, ())
    }

    pub closed spec fn spec_reducer(self) -> R {
        self.reducer
    }

    pub closed spec fn spec_initial(self) -> F {
        self.initial
    }
}

impl<'a, S: Clone + 'a, R, F: FnOnce() -> S> SideEffect<'a, S> for LazyReducerEffect<S, R, F> {
    type Api = (S, ReducerDispatch<S, R>);

    fn build(self, registrar: SideEffectRegistrar<'a, S>) -> (api: Self::Api)
        ensures
            exists|s: S|
                #[trigger] kept_or_initialized(*old(registrar.side_effect), self.spec_initial(), s)
                    && cloned(s, api.0) && cloned(s, api.1.state) && *final(registrar.side_effect) == Some(s),
            api.1.mutater.id == registrar.id,
            api.1.reducer == self.spec_reducer(),
    {
        proof {
            use_type_invariant(&self);
        }
        let LazyReducerEffect { reducer, initial, _state } = self;
        let (state, set_state, _) = registrar.raw_lazy(initial);
        let ghost s0 = *state;
        let current = state.clone();
        let captured = state.clone();
        let api = (current, ReducerDispatch { mutater: set_state, reducer, state: captured });
        assert(cloned(s0, api.0) && cloned(s0, api.1.state));
        assert(kept_or_initialized(*old(registrar.side_effect), self.spec_initial(), s0));
        assert(*final(registrar.side_effect) == Some(s0));
        api
    }
}

/// `s` is the state kept in `slot`, or, when there is none, a result of `init`.
pub open spec fn kept_or_initialized<S, F: FnOnce() -> S>(slot: Option<S>, init: F, s: S) -> bool {
    match slot {
        Some(kept) => s == kept,
        None => call_ensures(init, (), s),
    }
}

/// Like [`reducer`], but the initial state is computed by `initial`, which is called only on
/// the first build.
pub fn lazy_reducer<S, R, F: FnOnce() -> S>(reducer: R, initial: F) -> (e: LazyReducerEffect<S, R, F>)
    requires
        call_requires(initial, ()),
    ensures
        e.spec_reducer() == reducer,
        e.spec_initial() == initial,
{
    LazyReducerEffect { reducer, initial, _state: PhantomData }
}

impl<S, R> ReducerDispatch<S, R> {
    /// Replaces the reducer's state with `reducer` applied to the state of the build that
    /// handed out this dispatcher and `action`, and rebuilds its capsule
    /// (see [`Container::set_state`]).
    pub fn dispatch<C: Capsule<State = S>, A>(&self, container: &mut Container<C>, action: A)
        where
            R: Fn(S, A) -> S,
            S: Clone,
        requires
            registered_ids(old(container).graph(), self.mutater.id.spec_raw()).contains(self.mutater.id.spec_raw()),
            forall|st: S, a: A| call_requires(self.reducer, (st, a)),
        ensures
            mutated_as(*old(container), *final(container), self.mutater.id.spec_raw()),
            state_steps(*old(container), *final(container), self.mutater.id.spec_raw(), reduced::<S, A, R>(self.reducer, self.state, action)),
    {
        let ghost act = action;
        let current = self.state.clone();
        let next = (self.reducer)(current, action);
        container.set_state(&self.mutater, next);
        proof {
            assert forall|s: S, t: S| #[trigger] set_to(next)(s, t)
                implies reduced::<S, A, R>(self.reducer, self.state, act)(s, t) by {
                assert(cloned(self.state, current));
            }
            lemma_state_steps_weaken(
                *old(container),
                *container,
                self.mutater.id.spec_raw(),
                set_to(next),
                reduced::<S, A, R>(self.reducer, self.state, act),
            );
        }
    }
}

/// The step to the state that `reducer` returns for a clone of `captured` and `action`.
pub open spec fn reduced<S: Clone, A, R: Fn(S, A) -> S>(reducer: R, captured: S, action: A) -> spec_fn(S, S) -> bool {
    |s: S, t: S| exists|c: S| cloned(captured, c) && call_ensures(reducer, (c, action), t)
}

/// The step of a state replaced by what `write` returns for `data`.
pub open spec fn written<S, T, W: Fn(T) -> S>(write: W, data: T) -> spec_fn(S, S) -> bool {
    |s: S, t: S| call_ensures(write, (data,), t)
}

/// Persists new data of a [`sync_persist`] side effect; see [`Persister::persist`].
#[derive(Clone, Debug)]
pub struct Persister<W> {
    pub mutater: SideEffectStateMutater,
    pub write: W,
}

impl<W> Persister<W> {
    /// Writes `new_data` with the side effect's write function, makes the result the
    /// side effect's state, and rebuilds its capsule.
    pub fn persist<C: Capsule, T>(&self, container: &mut Container<C>, new_data: T)
        where
            W: Fn(T) -> C::State,
        requires
            registered_ids(old(container).graph(), self.mutater.id.spec_raw()).contains(self.mutater.id.spec_raw()),
            forall|t: T| call_requires(self.write, (t,)),
        ensures
            mutated_as(*old(container), *final(container), self.mutater.id.spec_raw()),
            state_steps(*old(container), *final(container), self.mutater.id.spec_raw(), written::<C::State, T, W>(self.write, new_data)),
    {
        let ghost data = new_data;
        let persist_result = (self.write)(new_data);
        container.set_state(&self.mutater, persist_result);
        proof {
            assert forall|s: C::State, t: C::State| #[trigger] set_to(persist_result)(s, t)
                implies written::<C::State, T, W>(self.write, data)(s, t) by {}
            lemma_state_steps_weaken(
                *old(container),
                *container,
                self.mutater.id.spec_raw(),
                set_to(persist_result),
                written::<C::State, T, W>(self.write, data),
            );
        }
    }
}

/// The side effect of [`sync_persist`].
#[verifier::reject_recursive_types(R)]
pub struct SyncPersistEffect<R, Read: FnOnce() -> R, W> {
    read: Read,
    write: W,
    _result: PhantomData<R>,
}

impl<R, Read: FnOnce() -> R, W> SyncPersistEffect<R, Read, W> {
    #[verifier::type_invariant]
    spec fn inv(self) -> bool {
        call_requires(self.read, ())
    }

    pub closed spec fn spec_write(self) -> W {
        self.write
    }

    pub closed spec fn spec_read(self) -> Read {
        self.read
    }
}

impl<'a, R: 'a, Read: FnOnce() -> R, W> SideEffect<'a, R> for SyncPersistEffect<R, Read, W> {
    type Api = (&'a R, Persister<W>);

    fn build(self, registrar: SideEffectRegistrar<'a, R>) -> (api: Self::Api)
        ensures
            kept_or_initialized(*old(registrar.side_effect), self.spec_read(), *api.0),
            *final(registrar.side_effect) == Some(*api.0),
            api.1.mutater.id == registrar.id,
            api.1.write == self.spec_write(),
    {
        proof {
            use_type_invariant(&self);
        }
        let SyncPersistEffect { read, write, _result } = self;
        let (state, set_state, _) = registrar.raw_lazy(read);
        let state: &'a R = state;
        let api = (state, Persister { mutater: set_state, write });
        assert(kept_or_initialized(*old(registrar.side_effect), self.spec_read(), *api.0));
        api
    }
}

/// A thin wrapper around the state side effect that enables easy state persistence:
/// the state is read with `read` on the first build, and [`Persister::persist`] writes new
/// data with `write` and keeps what `write` returns as the new state.
pub fn sync_persist<R, Read: FnOnce() -> R, W>(read: Read, write: W) -> (e: SyncPersistEffect<R, Read, W>)
    requires
        call_requires(read, ()),
    ensures
        e.spec_write() == write,
{
    SyncPersistEffect { read, write, _result: PhantomData }
}

/// The state of an asynchronous computation.
#[derive(Clone, Debug, PartialEq, Eq)]
pub enum AsyncState<T> {
    Idle(Option<T>),
    Loading(Option<T>),
    Complete(T),
}

impl<T> AsyncState<T> {
    /// The latest data: the previous data while idle or loading, the result once complete.
    pub fn data(self) -> (r: Option<T>)
        ensures
            r == match self {
                AsyncState::Idle(previous_data) => previous_data,
                AsyncState::Loading(previous_data) => previous_data,
                AsyncState::Complete(data) => Some(data),
            },
    {
        match self {
            AsyncState::Idle(previous_data) => previous_data,
            AsyncState::Loading(previous_data) => previous_data,
            AsyncState::Complete(data) => Some(data),
        }
    }
}

/// The latest data of an asynchronous computation.
pub open spec fn async_data<T>(state: AsyncState<T>) -> Option<T> {
    match state {
        AsyncState::Idle(previous_data) => previous_data,
        AsyncState::Loading(previous_data) => previous_data,
        AsyncState::Complete(data) => Some(data),
    }
}

impl<T> AsyncState<T> {
    /// The state once a computation starts: loading, keeping the latest data.
    pub fn loading(self) -> (r: AsyncState<T>)
        ensures
            r == AsyncState::Loading(async_data(self)),
    {
        AsyncState::Loading(self.data())
    }

    /// The state once a computation is cleared: idle, keeping the latest data.
    pub fn cleared(self) -> (r: AsyncState<T>)
        ensures
            r == AsyncState::Idle(async_data(self)),
    {
        AsyncState::Idle(self.data())
    }
}

/// The state of an asynchronous persistence.
#[derive(Clone, Debug, PartialEq, Eq)]
pub enum AsyncPersistState<T> {
    Loading(Option<T>),
    Complete(T),
}

impl<T> AsyncPersistState<T> {
    /// The latest data: the previous data while loading, the result once complete.
    pub fn data(self) -> (r: Option<T>)
        ensures
            r == match self {
                AsyncPersistState::Loading(previous_data) => previous_data,
                AsyncPersistState::Complete(data) => Some(data),
            },
    {
        match self {
            AsyncPersistState::Loading(previous_data) => previous_data,
            AsyncPersistState::Complete(data) => Some(data),
        }
    }
}

/// The state of an asynchronous persistence, from the state of its latest write and the
/// state of its read:
/// - with no write, the read's state (loading with its previous data, or complete);
/// - while a write is loading, its previous data, or the read's latest data if it has none;
/// - once a write is complete, its result.
///
/// The read is started on the first build, so it is never idle when no write was made.
pub fn async_persist_state<R>(write_state: AsyncState<R>, read_state: AsyncState<R>) -> (r: AsyncPersistState<R>)
    requires
        !(write_state is Idle && read_state is Idle),
    ensures
        write_state is Idle ==> (read_state matches AsyncState::Loading(prev) ==> r
            == AsyncPersistState::Loading(prev)),
        write_state is Idle ==> (read_state matches AsyncState::Complete(data) ==> r
            == AsyncPersistState::Complete(data)),
        write_state == AsyncState::<R>::Loading(None) ==> r == AsyncPersistState::Loading(async_data(read_state)),
        write_state matches AsyncState::Loading(Some(prev)) ==> r == AsyncPersistState::Loading(Some(prev)),
        write_state matches AsyncState::Complete(data) ==> r == AsyncPersistState::Complete(data),
{
    match write_state {
        AsyncState::Idle(_) => match read_state {
            AsyncState::Loading(prev) => AsyncPersistState::Loading(prev),
            AsyncState::Complete(data) => AsyncPersistState::Complete(data),
            AsyncState::Idle(_) => vstd::pervasive::unreached(),
        },
        AsyncState::Loading(None) => AsyncPersistState::Loading(read_state.data()),
        AsyncState::Loading(Some(prev)) => AsyncPersistState::Loading(Some(prev)),
        AsyncState::Complete(data) => AsyncPersistState::Complete(data),
    }
}

} // verus!
