//! Capsules that can switch between implementations at runtime.
use vstd::prelude::*;

use crate::{
    mutated_as, registered_ids, set_to, state_steps, Capsule, Container, SideEffect, SideEffectRegistrar,
    SideEffectStateMutater,
};

verus! {

/// The capsule an [`overridable_capsule`] side effect currently points to, and the handle
/// that overrides it (see [`OverridableCapsule::set`]).
///
/// A capsule that reads it and then reads `capsule` is built by whichever implementation
/// was set last.
#[derive(Clone, Debug)]
pub struct OverridableCapsule<C> {
    pub capsule: C,
    pub mutater: SideEffectStateMutater,
}

/// The side effect of [`overridable_capsule`].
pub struct OverridableCapsuleEffect<C> {
    pub default_capsule: C,
}

impl<'a, C: Clone + 'a> SideEffect<'a, C> for OverridableCapsuleEffect<C> {
    type Api = OverridableCapsule<C>;

    fn build(self, registrar: SideEffectRegistrar<'a, C>) -> (api: Self::Api)
        ensures
            cloned(
                match *old(registrar.side_effect) {
                    Some(c) => c,
                    None => self.default_capsule,
                },
                api.capsule,
            ),
            api.mutater.id == registrar.id,
    {
        let (curr_capsule, mutater, _) = registrar.raw(self.default_capsule);
        OverridableCapsule { capsule: curr_capsule.clone(), mutater }
    }
}

/// Allows you to create a capsule that can switch between implementations at runtime:
/// it points to `default_capsule` until [`OverridableCapsule::set`] overrides it.
pub fn overridable_capsule<C>(default_capsule: C) -> (e: OverridableCapsuleEffect<C>)
    ensures
        e.default_capsule == default_capsule,
{
    OverridableCapsuleEffect { default_capsule }
}

impl<C> OverridableCapsule<C> {
    /// Overrides the side effect to point to `capsule` and rebuilds the capsule that
    /// registered it (and its dependents).
    ///
    /// This mutates the container (and not `self`), so read the capsule again for the
    /// latest value.
    pub fn set<Cap: Capsule<State = C>>(self, container: &mut Container<Cap>, capsule: C)
        requires
            registered_ids(old(container).graph(), self.mutater.id.spec_raw()).contains(self.mutater.id.spec_raw()),
        ensures
            mutated_as(*old(container), *final(container), self.mutater.id.spec_raw()),
            state_steps(*old(container), *final(container), self.mutater.id.spec_raw(), set_to(capsule)),
    {
        container.set_state(&self.mutater, capsule);
    }
}

} // verus!
