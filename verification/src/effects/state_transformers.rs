use vstd::prelude::*;

use core::marker::PhantomData;

use super::StateTransformer;

verus! {

/// A [`StateTransformer`] that provides a `&T` as a part of the side effect's api.
pub struct Ref<T>(pub T);

impl<'a, T: 'a> StateTransformer<'a> for Ref<T> {
    type Input = T;

    type Inner = T;

    type Output = &'a T;

    open spec fn accepts(input: T) -> bool {
        true
    }

    open spec fn made_from(input: Self::Input, st: Self) -> bool {
        st.0 == input
    }

    open spec fn spec_inner(&self) -> T {
        self.0
    }

    open spec fn gives(&self, out: &'a T) -> bool {
        *out == self.0
    }

    fn from_input(input: T) -> (r: Self)
        ensures
            r.0 == input,
    {
        Ref(input)
    }

    fn as_inner(&mut self) -> (r: &mut T)
        ensures
            *r == old(self).0,
            final(self).0 == *final(r),
    {
        &mut self.0
    }

    fn as_output(&'a mut self) -> (r: &'a T)
        ensures
            *r == old(self).0,
            *final(self) == *old(self),
    {
        &self.0
    }
}

/// A [`StateTransformer`] that provides a `&mut T` as a part of the side effect's api.
pub struct MutRef<T>(pub T);

impl<'a, T: 'a> StateTransformer<'a> for MutRef<T> {
    type Input = T;

    type Inner = T;

    type Output = &'a mut T;

    open spec fn accepts(input: T) -> bool {
        true
    }

    open spec fn made_from(input: Self::Input, st: Self) -> bool {
        st.0 == input
    }

    open spec fn spec_inner(&self) -> T {
        self.0
    }

    open spec fn gives(&self, out: &'a mut T) -> bool {
        *out == self.0
    }

    fn from_input(input: T) -> (r: Self)
        ensures
            r.0 == input,
    {
        MutRef(input)
    }

    fn as_inner(&mut self) -> (r: &mut T)
        ensures
            *r == old(self).0,
            final(self).0 == *final(r),
    {
        &mut self.0
    }

    fn as_output(&'a mut self) -> (r: &'a mut T)
        ensures
            *r == old(self).0,
            final(self).0 == *final(r),
    {
        &mut self.0
    }
}

/// A [`StateTransformer`] that provides a `T` where `T: Clone` as a part of the side effect's api.
pub struct Cloned<T>(pub T);

impl<'a, T: Clone + 'a> StateTransformer<'a> for Cloned<T> {
    type Input = T;

    type Inner = T;

    type Output = T;

    open spec fn accepts(input: T) -> bool {
        true
    }

    open spec fn made_from(input: Self::Input, st: Self) -> bool {
        st.0 == input
    }

    open spec fn spec_inner(&self) -> T {
        self.0
    }

    open spec fn gives(&self, out: T) -> bool {
        cloned(self.0, out)
    }

    fn from_input(input: T) -> (r: Self)
        ensures
            r.0 == input,
    {
        Cloned(input)
    }

    fn as_inner(&mut self) -> (r: &mut T)
        ensures
            *r == old(self).0,
            final(self).0 == *final(r),
    {
        &mut self.0
    }

    fn as_output(&'a mut self) -> (r: T)
        ensures
            cloned(old(self).0, r),
            *final(self) == *old(self),
    {
        self.0.clone()
    }
}

/// A [`StateTransformer`] that provides a `&T` as a part of the side effect's api,
/// but takes a lazily-evaluated function as input to initialize the side effect state.
#[verifier::reject_recursive_types(F)]
pub struct LazyRef<T, F>(pub T, pub PhantomData<F>);

impl<'a, T: 'a, F: FnOnce() -> T + 'a> StateTransformer<'a> for LazyRef<T, F> {
    type Input = F;

    type Inner = T;

    type Output = &'a T;

    open spec fn accepts(input: F) -> bool {
        call_requires(input, ())
    }

    open spec fn made_from(input: Self::Input, st: Self) -> bool {
        call_ensures(input, (), st.0)
    }

    open spec fn spec_inner(&self) -> T {
        self.0
    }

    open spec fn gives(&self, out: &'a T) -> bool {
        *out == self.0
    }

    fn from_input(input: F) -> (r: Self)
        ensures
            call_ensures(input, (), r.0),
    {
        LazyRef(input(), PhantomData)
    }

    fn as_inner(&mut self) -> (r: &mut T)
        ensures
            *r == old(self).0,
            final(self).0 == *final(r),
    {
        &mut self.0
    }

    fn as_output(&'a mut self) -> (r: &'a T)
        ensures
            *r == old(self).0,
            *final(self) == *old(self),
    {
        &self.0
    }
}

/// A [`StateTransformer`] that provides a `&mut T` as a part of the side effect's api,
/// but takes a lazily-evaluated function as input to initialize the side effect state.
#[verifier::reject_recursive_types(F)]
pub struct LazyMutRef<T, F>(pub T, pub PhantomData<F>);

impl<'a, T: 'a, F: Fn() -> T + 'a> StateTransformer<'a> for LazyMutRef<T, F> {
    type Input = F;

    type Inner = T;

    type Output = &'a mut T;

    open spec fn accepts(input: F) -> bool {
        call_requires(input, ())
    }

    open spec fn made_from(input: Self::Input, st: Self) -> bool {
        call_ensures(input, (), st.0)
    }

    open spec fn spec_inner(&self) -> T {
        self.0
    }

    open spec fn gives(&self, out: &'a mut T) -> bool {
        *out == self.0
    }

    fn from_input(input: F) -> (r: Self)
        ensures
            call_ensures(input, (), r.0),
    {
        LazyMutRef(input(), PhantomData)
    }

    fn as_inner(&mut self) -> (r: &mut T)
        ensures
            *r == old(self).0,
            final(self).0 == *final(r),
    {
        &mut self.0
    }

    fn as_output(&'a mut self) -> (r: &'a mut T)
        ensures
            *r == old(self).0,
            final(self).0 == *final(r),
    {
        &mut self.0
    }
}

/// A [`StateTransformer`] that provides a `T` where `T: Clone` as a part of the side effect's api,
/// but takes a lazily-evaluated function as input to initialize the side effect state.
#[verifier::reject_recursive_types(F)]
pub struct LazyCloned<T, F>(pub T, pub PhantomData<F>);

impl<'a, T: Clone + 'a, F: Fn() -> T + 'a> StateTransformer<'a> for LazyCloned<T, F> {
    type Input = F;

    type Inner = T;

    type Output = T;

    open spec fn accepts(input: F) -> bool {
        call_requires(input, ())
    }

    open spec fn made_from(input: Self::Input, st: Self) -> bool {
        call_ensures(input, (), st.0)
    }

    open spec fn spec_inner(&self) -> T {
        self.0
    }

    open spec fn gives(&self, out: T) -> bool {
        cloned(self.0, out)
    }

    fn from_input(input: F) -> (r: Self)
        ensures
            call_ensures(input, (), r.0),
    {
        LazyCloned(input(), PhantomData)
    }

    fn as_inner(&mut self) -> (r: &mut T)
        ensures
            *r == old(self).0,
            final(self).0 == *final(r),
    {
        &mut self.0
    }

    fn as_output(&'a mut self) -> (r: T)
        ensures
            cloned(old(self).0, r),
            *final(self) == *old(self),
    {
        self.0.clone()
    }
}

} // verus!
