//! Registering several side effects one after the other within one build.
use vstd::prelude::*;

use core::marker::PhantomData;

use crate::{CapsuleId, SideEffect, SideEffectRegistrar};

verus! {

/// The states of `n` side effects that were never registered.
pub open spec fn unregistered<S>(n: nat) -> Seq<Option<S>> {
    Seq::new(n, |i: int| None)
}

/// The side effect of [`multi`]: it keeps one state slot per side effect registered through
/// its [`MultiSideEffectRegistrar`].
pub struct MultiEffect<S, const LENGTH: usize> {
    _state: PhantomData<S>,
}

/// Allows you to register multiple side effects _sequentially_,
/// unlike the standard [`SideEffectRegistrar`].
///
/// Instead of having to register all of your effects in one line,
/// you can instead register them throughout the function, as they are needed, for convenience.
/// You must pass in the number of side effects registered via the const generic.
pub fn multi<S, const LENGTH: usize>() -> MultiEffect<S, LENGTH> {
    MultiEffect { _state: PhantomData }
}

/// Allows you to register multiple side effects _sequentially_,
/// unlike the standard [`SideEffectRegistrar`].
/// Provided by [`multi`].
pub struct MultiSideEffectRegistrar<'a, S> {
    /// How many side effects were registered so far.
    pub curr_index: usize,
    /// The state slots of the side effects still to be registered.
    pub curr_slice: Option<&'a mut [Option<S>]>,
    /// The capsule whose side effects are registered.
    pub id: CapsuleId,
}

impl<'a, S> MultiSideEffectRegistrar<'a, S> {
    /// The registrar can hand out its remaining slots.
    pub closed spec fn wf(&self) -> bool {
        &&& self.curr_slice is Some
        &&& self.curr_index + self.curr_slice->0@.len() <= usize::MAX
    }

    /// How many side effects were registered through this registrar.
    pub closed spec fn index(&self) -> nat {
        self.curr_index as nat
    }

    /// The states of the side effects still to be registered, in order.
    pub closed spec fn remaining(&self) -> Seq<Option<S>> {
        self.curr_slice->0@
    }

    /// The capsule whose side effects are registered.
    pub closed spec fn id(&self) -> CapsuleId {
        self.id
    }

    /// Registers the given [`SideEffect`] in the next state slot, similar to
    /// [`SideEffectRegistrar::register`].
    ///
    /// The length supplied to [`multi`] must leave a slot for it.
    pub fn register<E: SideEffect<'a, S>>(&mut self, effect: E) -> (api: E::Api)
        requires
            old(self).wf(),
            old(self).remaining().len() > 0,
        ensures
            final(self).wf(),
            final(self).index() == old(self).index() + 1,
            final(self).remaining() == old(self).remaining().drop_first(),
            final(self).id() == old(self).id(),
            exists|r: SideEffectRegistrar<'a, S>|
                #[trigger] call_ensures(E::build, (effect, r), api) && r.id == old(self).id()
                    && *r.side_effect == old(self).remaining()[0]
                    && ({
                    let rest = final(self).curr_slice.unwrap();
                    (*final(old(self).curr_slice.unwrap()))@ == seq![*final(r.side_effect)] + (*final(rest))@
                }),
    {
        let slice = self.curr_slice.take().unwrap();
        let (first, rest) = slice.split_at_mut(1);
        let curr = first.first_mut().unwrap();
        self.curr_index = self.curr_index + 1;
        self.curr_slice = Some(rest);
        let registrar = SideEffectRegistrar::new(curr, self.id);
        let ghost r = registrar;
        let api = registrar.register(effect);
        assert(call_ensures(E::build, (effect, r), api));
        api
    }
}

impl<'a, S: 'a, const LENGTH: usize> SideEffect<'a, Vec<Option<S>>> for MultiEffect<S, LENGTH> {
    type Api = MultiSideEffectRegistrar<'a, S>;

    fn build(self, registrar: SideEffectRegistrar<'a, Vec<Option<S>>>) -> (api: Self::Api)
        ensures
            api.wf(),
            api.index() == 0,
            api.remaining() == match *old(registrar.side_effect) {
                Some(states) => states@,
                None => unregistered::<S>(LENGTH as nat),
            },
            api.id() == registrar.id,
            *final(registrar.side_effect) matches Some(states) && states@ == (*final(api.curr_slice.unwrap()))@,
    {
        let id = registrar.id;
        let mut fresh: Vec<Option<S>> = Vec::new();
        let mut i: usize = 0;
        while i < LENGTH
            invariant
                i <= LENGTH,
                fresh@ == unregistered::<S>(i as nat),
            decreases LENGTH - i,
        {
            fresh.push(None);
            i = i + 1;
            assert(fresh@ =~= unregistered::<S>(i as nat));
        }
        let (states, _, _) = registrar.raw(fresh);
        let slots = states.as_mut_slice();
        let _ = slots.len();
        MultiSideEffectRegistrar { curr_index: 0, curr_slice: Some(slots), id }
    }
}

} // verus!
