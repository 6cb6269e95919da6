//! Query mutations: the state of an asynchronous operation that a capsule triggers, and the
//! transitions that starting, completing and clearing it make.
//!
//! Running the operation itself (spawning it on a runtime, aborting it when a newer one
//! starts) is the caller's part; the library decides what each step does to the state.
use vstd::prelude::*;

use core::marker::PhantomData;

use crate::effects::StateTransformer;
use crate::{
    state_steps, lemma_mutation_steps, lemma_state_steps_weaken, set_to, mutated_as, registered_ids, Capsule, Container, SideEffect,
    SideEffectRegistrar, SideEffectStateMutater,
};

verus! {

/// The state of an asynchronous computation.
#[derive(Clone, Debug, PartialEq, Eq, PartialOrd, Ord, Hash)]
pub enum AsyncState<T> {
    Loading(Option<T>),
    Complete(T),
}

impl<T> AsyncState<T> {
    /// The latest data: the previous data while loading, the result once complete.
    pub fn data(self) -> (r: Option<T>)
        ensures
            r == match self {
                AsyncState::Loading(previous_data) => previous_data,
                AsyncState::Complete(data) => Some(data),
            },
    {
        match self {
            AsyncState::Loading(previous_data) => previous_data,
            AsyncState::Complete(data) => Some(data),
        }
    }
}

/// The state of a mutation: never started or cleared, running, or done.
#[derive(Clone, Debug, PartialEq, Eq, PartialOrd, Ord, Hash)]
pub enum MutationState<T> {
    Idle(Option<T>),
    Loading(Option<T>),
    Complete(T),
}

/// The data of a mutation state: the previous data while idle or loading, the result once
/// complete.
pub open spec fn mutation_data<T>(state: MutationState<T>) -> Option<T> {
    match state {
        MutationState::Idle(previous_data) => previous_data,
        MutationState::Loading(previous_data) => previous_data,
        MutationState::Complete(data) => Some(data),
    }
}

/// The values a mutable view of a mutation state points to now.
pub open spec fn current_values<T>(state: MutationState<&mut T>) -> MutationState<T> {
    match state {
        MutationState::Idle(p) => MutationState::Idle(
            match p {
                Some(x) => Some(*x),
                None => None,
            },
        ),
        MutationState::Loading(p) => MutationState::Loading(
            match p {
                Some(x) => Some(*x),
                None => None,
            },
        ),
        MutationState::Complete(x) => MutationState::Complete(*x),
    }
}

/// `f` may be called on every value that `state` holds.
pub open spec fn maps_all<T, U, F: FnOnce(T) -> U>(state: MutationState<T>, f: F) -> bool {
    match mutation_data(state) {
        Some(x) => call_requires(f, (x,)),
        None => true,
    }
}

impl<T> MutationState<T> {
    /// The latest data: the previous data while idle or loading, the result once complete.
    pub fn data(self) -> (r: Option<T>)
        ensures
            r == mutation_data(self),
    {
        match self {
            MutationState::Idle(previous_data) => previous_data,
            MutationState::Loading(previous_data) => previous_data,
            MutationState::Complete(data) => Some(data),
        }
    }

    /// Applies `f` to the data of the state, keeping the state's variant.
    pub fn map<U, F: FnOnce(T) -> U>(self, f: F) -> (r: MutationState<U>)
        requires
            maps_all(self, f),
        ensures
            match self {
                MutationState::Idle(None) => r == MutationState::<U>::Idle(None),
                MutationState::Loading(None) => r == MutationState::<U>::Loading(None),
                MutationState::Idle(Some(x)) => r matches MutationState::Idle(Some(y)) && call_ensures(f, (x,), y),
                MutationState::Loading(Some(x)) => r matches MutationState::Loading(Some(y)) && call_ensures(f, (x,), y),
                MutationState::Complete(x) => r matches MutationState::Complete(y) && call_ensures(f, (x,), y),
            },
    {
        match self {
            MutationState::Idle(prev) => MutationState::Idle(
                match prev {
                    Some(x) => Some(f(x)),
                    None => None,
                },
            ),
            MutationState::Loading(prev) => MutationState::Loading(
                match prev {
                    Some(x) => Some(f(x)),
                    None => None,
                },
            ),
            MutationState::Complete(state) => MutationState::Complete(f(state)),
        }
    }

    /// A view of the state through which its data can be changed in place.
    pub fn as_mut(&mut self) -> (r: MutationState<&mut T>)
        ensures
            current_values(r) == *old(self),
            match r {
                MutationState::Idle(Some(x)) => *final(self) == MutationState::Idle(Some(*final(x))),
                MutationState::Idle(None) => *final(self) == MutationState::<T>::Idle(None),
                MutationState::Loading(Some(x)) => *final(self) == MutationState::Loading(Some(*final(x))),
                MutationState::Loading(None) => *final(self) == MutationState::<T>::Loading(None),
                MutationState::Complete(x) => *final(self) == MutationState::Complete(*final(x)),
            },
    {
        match self {
            MutationState::Idle(prev) => MutationState::Idle(prev.as_mut()),
            MutationState::Loading(prev) => MutationState::Loading(prev.as_mut()),
            MutationState::Complete(state) => MutationState::Complete(state),
        }
    }

    /// The state once a mutation starts: loading, keeping the latest data.
    pub fn loading(self) -> (r: MutationState<T>)
        ensures
            r == MutationState::Loading(mutation_data(self)),
    {
        MutationState::Loading(self.data())
    }

    /// The state once a mutation is cleared: idle, keeping the latest data.
    pub fn cleared(self) -> (r: MutationState<T>)
        ensures
            r == MutationState::Idle(mutation_data(self)),
    {
        MutationState::Idle(self.data())
    }
}

/// The step of a mutation state when the mutation starts: loading, with the latest data.
pub open spec fn started<T>() -> spec_fn(MutationState<T>, MutationState<T>) -> bool {
    |s: MutationState<T>, t: MutationState<T>| t == MutationState::Loading(mutation_data(s))
}

/// The step of a mutation state when the mutation is cleared: idle, with the latest data.
pub open spec fn cleared_out<T>() -> spec_fn(MutationState<T>, MutationState<T>) -> bool {
    |s: MutationState<T>, t: MutationState<T>| t == MutationState::Idle(mutation_data(s))
}

/// The step of a mutation state when the mutation completes with `input`: complete, with
/// a state made from `input`.
pub open spec fn completed_with<'a, ST: StateTransformer<'a>>(input: ST::Input) -> spec_fn(
    MutationState<ST>,
    MutationState<ST>,
) -> bool {
    |s: MutationState<ST>, t: MutationState<ST>| exists|d: ST| ST::made_from(input, d) && t == MutationState::Complete(d)
}

/// `out` is what the mutation state `kept` gives through its state transformer: the same
/// variant, with each state given as the transformer's output.
pub open spec fn gives_mutation<'a, ST: StateTransformer<'a>>(
    kept: MutationState<ST>,
    out: MutationState<ST::Output>,
) -> bool {
    match kept {
        MutationState::Idle(None) => out == MutationState::<ST::Output>::Idle(None),
        MutationState::Loading(None) => out == MutationState::<ST::Output>::Loading(None),
        MutationState::Idle(Some(s)) => out matches MutationState::Idle(Some(o)) && s.gives(o),
        MutationState::Loading(Some(s)) => out matches MutationState::Loading(Some(o)) && s.gives(o),
        MutationState::Complete(s) => out matches MutationState::Complete(o) && s.gives(o),
    }
}

/// The side effect of [`mutation`].
pub struct MutationEffect<'a, ST: StateTransformer<'a>> {
    _transformer: PhantomData<&'a ST>,
}

/// Starts, completes and clears the mutation of a [`mutation`] side effect.
#[derive(Clone, Copy, Debug, PartialEq, Eq)]
pub struct MutationHandle {
    pub mutater: SideEffectStateMutater,
}

impl<'a, ST: StateTransformer<'a>> SideEffect<'a, MutationState<ST>> for MutationEffect<'a, ST> {
    type Api = (MutationState<ST::Output>, MutationHandle);

    fn build(self, registrar: SideEffectRegistrar<'a, MutationState<ST>>) -> (api: Self::Api)
        ensures
            api.1.mutater.id == registrar.id,
            gives_mutation(
                match *old(registrar.side_effect) {
                    Some(kept) => kept,
                    None => MutationState::Idle(None),
                },
                api.0,
            ),
    {
        let (state, mutater, _) = registrar.raw(MutationState::Idle(None));
        let output = state.as_mut().map(|st: &'a mut ST| -> (out: ST::Output) ensures old(st).gives(out) { st.as_output() });
        (output, MutationHandle { mutater })
    }
}

/// Allows you to trigger and clear query mutations: the state of the latest mutation
/// (idle before the first one) and the handle that moves it along.
///
/// This should normally *not* be used with [`crate::effects::MutRef`].
pub fn mutation<'a, ST: StateTransformer<'a>>() -> MutationEffect<'a, ST> {
    MutationEffect { _transformer: PhantomData }
}

impl MutationHandle {
    /// Marks the mutation as loading (keeping its latest data) and rebuilds its capsule;
    /// the caller then runs the operation and hands its result to
    /// [`MutationHandle::complete`].
    pub fn start<'a, C: Capsule<State = MutationState<ST>>, ST: StateTransformer<'a>>(
        &self,
        container: &mut Container<C>,
    )
        requires
            registered_ids(old(container).graph(), self.mutater.id.spec_raw()).contains(self.mutater.id.spec_raw()),
        ensures
            mutated_as(*old(container), *final(container), self.mutater.id.spec_raw()),
            state_steps(*old(container), *final(container), self.mutater.id.spec_raw(), started::<ST>()),
    {
        let step = |st: &mut MutationState<ST>| ensures *final(st) == MutationState::Loading(mutation_data(*old(st))) {
            let mut previous = MutationState::Idle(None);
            core::mem::swap(st, &mut previous);
            *st = previous.loading();
        };
        let ghost mutation = step;
        let ghost before = *container;
        container.run_side_effect_mutation(&self.mutater, step);
        proof {
            lemma_mutation_steps(before, *container, self.mutater.id.spec_raw(), mutation, started::<ST>());
        }
    }

    /// Makes `input`, the result of the operation, the completed data of the mutation and
    /// rebuilds its capsule.
    pub fn complete<'a, C: Capsule<State = MutationState<ST>>, ST: StateTransformer<'a>>(
        &self,
        container: &mut Container<C>,
        input: ST::Input,
    )
        requires
            registered_ids(old(container).graph(), self.mutater.id.spec_raw()).contains(self.mutater.id.spec_raw()),
            ST::accepts(input),
        ensures
            mutated_as(*old(container), *final(container), self.mutater.id.spec_raw()),
            state_steps(*old(container), *final(container), self.mutater.id.spec_raw(), completed_with::<'a, ST>(input)),
    {
        let ghost given = input;
        let data = ST::from_input(input);
        container.set_state(&self.mutater, MutationState::Complete(data));
        proof {
            let v = MutationState::Complete(data);
            assert forall|s: MutationState<ST>, t: MutationState<ST>| #[trigger] set_to(v)(s, t)
                implies completed_with::<'a, ST>(given)(s, t) by {}
            lemma_state_steps_weaken(
                *old(container),
                *container,
                self.mutater.id.spec_raw(),
                set_to(v),
                completed_with::<'a, ST>(given),
            );
        }
    }

    /// Makes the mutation idle again (keeping its latest data) and rebuilds its capsule;
    /// the caller aborts the operation if it is still running.
    pub fn clear<'a, C: Capsule<State = MutationState<ST>>, ST: StateTransformer<'a>>(
        &self,
        container: &mut Container<C>,
    )
        requires
            registered_ids(old(container).graph(), self.mutater.id.spec_raw()).contains(self.mutater.id.spec_raw()),
        ensures
            mutated_as(*old(container), *final(container), self.mutater.id.spec_raw()),
            state_steps(*old(container), *final(container), self.mutater.id.spec_raw(), cleared_out::<ST>()),
    {
        let step = |st: &mut MutationState<ST>| ensures *final(st) == MutationState::Idle(mutation_data(*old(st))) {
            let mut previous = MutationState::Idle(None);
            core::mem::swap(st, &mut previous);
            *st = previous.cleared();
        };
        let ghost mutation = step;
        let ghost before = *container;
        container.run_side_effect_mutation(&self.mutater, step);
        proof {
            lemma_mutation_steps(before, *container, self.mutater.id.spec_raw(), mutation, cleared_out::<ST>());
        }
    }
}

} // verus!
