//! Side effects whose build is a closure over the registrar and whose api starts with the
//! output of a [`StateTransformer`].
use vstd::prelude::*;

use core::marker::PhantomData;

use super::StateTransformer;
use crate::{SideEffect, SideEffectRegistrar};

verus! {

/// A side effect built by `f`, whose api is the output of the transformer `ST`.
#[verifier::reject_recursive_types(ST)]
pub struct EffectLifetimeFixer0<'a, ST: StateTransformer<'a>, F: FnOnce(SideEffectRegistrar<'a, ST>) -> ST::Output> {
    f: F,
    _transformer: PhantomData<&'a ST>,
}

impl<'a, ST: StateTransformer<'a>, F: FnOnce(SideEffectRegistrar<'a, ST>) -> ST::Output> EffectLifetimeFixer0<'a, ST, F> {
    #[verifier::type_invariant]
    spec fn inv(self) -> bool {
        forall|registrar: SideEffectRegistrar<'a, ST>| call_requires(self.f, (registrar,))
    }

    pub closed spec fn spec_f(self) -> F {
        self.f
    }

    /// The side effect built by `f`, which must accept every registrar.
    pub fn new(f: F) -> (e: Self)
        requires
            forall|registrar: SideEffectRegistrar<'a, ST>| call_requires(f, (registrar,)),
        ensures
            e.spec_f() == f,
    {
        EffectLifetimeFixer0 { f, _transformer: PhantomData }
    }
}

impl<'a, ST: StateTransformer<'a>, F: FnOnce(SideEffectRegistrar<'a, ST>) -> ST::Output> SideEffect<'a, ST> for EffectLifetimeFixer0<'a, ST, F> {
    type Api = ST::Output;

    fn build(self, registrar: SideEffectRegistrar<'a, ST>) -> (api: Self::Api)
        ensures
            call_ensures(self.spec_f(), (registrar,), api),
    {
        proof {
            use_type_invariant(&self);
        }
        (self.f)(registrar)
    }
}

/// A side effect built by `f`, whose api is the output of the transformer `ST` and one more
/// value.
#[verifier::reject_recursive_types(ST)]
#[verifier::reject_recursive_types(R1)]
pub struct EffectLifetimeFixer1<'a, ST: StateTransformer<'a>, R1, F: FnOnce(SideEffectRegistrar<'a, ST>) -> (ST::Output, R1)> {
    f: F,
    _transformer: PhantomData<&'a ST>,
    _api: PhantomData<R1>,
}

impl<'a, ST: StateTransformer<'a>, R1, F: FnOnce(SideEffectRegistrar<'a, ST>) -> (ST::Output, R1)> EffectLifetimeFixer1<'a, ST, R1, F> {
    #[verifier::type_invariant]
    spec fn inv(self) -> bool {
        forall|registrar: SideEffectRegistrar<'a, ST>| call_requires(self.f, (registrar,))
    }

    pub closed spec fn spec_f(self) -> F {
        self.f
    }

    /// The side effect built by `f`, which must accept every registrar.
    pub fn new(f: F) -> (e: Self)
        requires
            forall|registrar: SideEffectRegistrar<'a, ST>| call_requires(f, (registrar,)),
        ensures
            e.spec_f() == f,
    {
        EffectLifetimeFixer1 { f, _transformer: PhantomData, _api: PhantomData }
    }
}

impl<'a, ST: StateTransformer<'a>, R1, F: FnOnce(SideEffectRegistrar<'a, ST>) -> (ST::Output, R1)> SideEffect<'a, ST> for EffectLifetimeFixer1<'a, ST, R1, F> {
    type Api = (ST::Output, R1);

    fn build(self, registrar: SideEffectRegistrar<'a, ST>) -> (api: Self::Api)
        ensures
            call_ensures(self.spec_f(), (registrar,), api),
    {
        proof {
            use_type_invariant(&self);
        }
        (self.f)(registrar)
    }
}

/// A side effect built by `f`, whose api is the output of the transformer `ST` and two more
/// values.
#[verifier::reject_recursive_types(ST)]
#[verifier::reject_recursive_types(R1)]
#[verifier::reject_recursive_types(R2)]
pub struct EffectLifetimeFixer2<'a, ST: StateTransformer<'a>, R1, R2, F: FnOnce(SideEffectRegistrar<'a, ST>) -> (ST::Output, R1, R2)> {
    f: F,
    _transformer: PhantomData<&'a ST>,
    _api: PhantomData<(R1, R2)>,
}

impl<'a, ST: StateTransformer<'a>, R1, R2, F: FnOnce(SideEffectRegistrar<'a, ST>) -> (ST::Output, R1, R2)> EffectLifetimeFixer2<'a, ST, R1, R2, F> {
    #[verifier::type_invariant]
    spec fn inv(self) -> bool {
        forall|registrar: SideEffectRegistrar<'a, ST>| call_requires(self.f, (registrar,))
    }

    pub closed spec fn spec_f(self) -> F {
        self.f
    }

    /// The side effect built by `f`, which must accept every registrar.
    pub fn new(f: F) -> (e: Self)
        requires
            forall|registrar: SideEffectRegistrar<'a, ST>| call_requires(f, (registrar,)),
        ensures
            e.spec_f() == f,
    {
        EffectLifetimeFixer2 { f, _transformer: PhantomData, _api: PhantomData }
    }
}

impl<'a, ST: StateTransformer<'a>, R1, R2, F: FnOnce(SideEffectRegistrar<'a, ST>) -> (ST::Output, R1, R2)> SideEffect<'a, ST> for EffectLifetimeFixer2<'a, ST, R1, R2, F> {
    type Api = (ST::Output, R1, R2);

    fn build(self, registrar: SideEffectRegistrar<'a, ST>) -> (api: Self::Api)
        ensures
            call_ensures(self.spec_f(), (registrar,), api),
    {
        proof {
            use_type_invariant(&self);
        }
        (self.f)(registrar)
    }
}

} // verus!
