use vstd::prelude::*;

use crate::CapsuleId;

verus! {

/// Represents a side effect that can be utilized within the build function.
///
/// The key observation about side effects is that they form a tree, where each side effect:
/// - Has its own private state (including composing other side effects together)
/// - Presents some api to the build method, probably including a way to rebuild & update its state
///
/// `S` is the type of the private state the side effect keeps between builds.
pub trait SideEffect<'a, S: 'a> {
    /// The type exposed in the capsule build function when this side effect is registered;
    /// in other words, this is the api exposed by the side effect.
    type Api;

    /// Construct this side effect's `Api` via the given [`SideEffectRegistrar`].
    fn build(self, registrar: SideEffectRegistrar<'a, S>) -> Self::Api;
}

/// Names the capsule whose side effect state a mutation applies to;
/// see [`crate::Container::run_side_effect_mutation`].
#[derive(Clone, Copy, Debug, PartialEq, Eq)]
pub struct SideEffectStateMutater {
    pub id: CapsuleId,
}

/// Lets a side effect batch several mutations into one rebuild;
/// see [`crate::Container::run_side_effect_txn`].
#[derive(Clone, Copy, Debug, PartialEq, Eq)]
pub struct SideEffectTxnRunner;

/// Registers the given side effect and returns its build api.
/// You can only call register once on purpose (it consumes self);
/// to register multiple side effects, simply pass them in together!
/// If you have an idempotent capsule that you wish to make non-idempotent,
/// simply register `()` (or use the `as_listener()` side effect).
pub struct SideEffectRegistrar<'a, S> {
    pub side_effect: &'a mut Option<S>,
    pub id: CapsuleId,
}

impl<'a, S> SideEffectRegistrar<'a, S> {
    /// Creates a new `SideEffectRegistrar` over the side effect state `side_effect`
    /// of the capsule `id`.
    ///
    /// This is public only to enable easier mocking in your code,
    /// or for other libraries looking to deeply integrate;
    /// do not use this method in other contexts.
    pub fn new(side_effect: &'a mut Option<S>, id: CapsuleId) -> (r: Self)
        ensures
            r.id == id,
            *r.side_effect == *old(side_effect),
            *final(r.side_effect) == *final(side_effect),
    {
        SideEffectRegistrar { side_effect, id }
    }

    /// Registers the given side effect.
    pub fn register<E: SideEffect<'a, S>>(self, effect: E) -> (api: E::Api)
        ensures
            call_ensures(E::build, (effect, self), api),
    {
        effect.build(self)
    }

    /// The basic building block for all side effects: the state of the side effect,
    /// initialized to `initial` on the first registration and kept as it is after that,
    /// together with the handles that mutate it and batch mutations.
    pub fn raw(self, initial: S) -> (r: (&'a mut S, SideEffectStateMutater, SideEffectTxnRunner))
        ensures
            *r.0 == match *old(self.side_effect) {
                Some(s) => s,
                None => initial,
            },
            *final(self.side_effect) == Some(*final(r.0)),
            r.1.id == self.id,
    {
        if self.side_effect.is_none() {
            *self.side_effect = Some(initial);
        }
        let id = self.id;
        match self.side_effect {
            Some(state) => (state, SideEffectStateMutater { id }, SideEffectTxnRunner),
            None => vstd::pervasive::unreached(),
        }
    }

    /// Like [`SideEffectRegistrar::raw`], but computes the initial state with `init`,
    /// which is called only on the first registration.
    pub fn raw_lazy<F: FnOnce() -> S>(self, init: F) -> (r: (
        &'a mut S,
        SideEffectStateMutater,
        SideEffectTxnRunner,
    ))
        requires
            call_requires(init, ()),
        ensures
            match *old(self.side_effect) {
                Some(s) => *r.0 == s,
                None => call_ensures(init, (), *r.0),
            },
            *final(self.side_effect) == Some(*final(r.0)),
            r.1.id == self.id,
    {
        if self.side_effect.is_none() {
            *self.side_effect = Some(init());
        }
        let id = self.id;
        match self.side_effect {
            Some(state) => (state, SideEffectStateMutater { id }, SideEffectTxnRunner),
            None => vstd::pervasive::unreached(),
        }
    }
}

/// The no-op side effect: it keeps no state of its own, but registering it makes a capsule
/// non-idempotent (so that it is never garbage collected).
impl<'a, S: Default + 'a> SideEffect<'a, S> for () {
    type Api = ();

    fn build(self, registrar: SideEffectRegistrar<'a, S>)
        ensures
            *final(registrar.side_effect) is Some,
            *old(registrar.side_effect) is Some ==> *final(registrar.side_effect) == *old(
                registrar.side_effect,
            ),
    {
        let _ = registrar.raw(S::default());
    }
}

/// Two side effects registered together; each keeps its own state.
impl<'a, SA: 'a, SB: 'a, A: SideEffect<'a, SA>, B: SideEffect<'a, SB>> SideEffect<
    'a,
    (Option<SA>, Option<SB>),
> for (A, B) {
    type Api = (A::Api, B::Api);

    fn build(self, registrar: SideEffectRegistrar<'a, (Option<SA>, Option<SB>)>) -> (api: Self::Api)
        ensures
            exists|ra: SideEffectRegistrar<'a, SA>, rb: SideEffectRegistrar<'a, SB>|
                #[trigger] call_ensures(A::build, (self.0, ra), api.0)
                    && #[trigger] call_ensures(B::build, (self.1, rb), api.1)
                    && ra.id == registrar.id && rb.id == registrar.id
                    && *ra.side_effect == match *old(registrar.side_effect) {
                        Some(st) => st.0,
                        None => None,
                    }
                    && *rb.side_effect == match *old(registrar.side_effect) {
                        Some(st) => st.1,
                        None => None,
                    }
                    && *final(registrar.side_effect) == Some((*final(ra.side_effect), *final(rb.side_effect))),
    {
        let id = registrar.id;
        let (all_states, _, _) = registrar.raw((None, None));
        let (a, b) = self;
        let state_a = &mut all_states.0;
        let state_b = &mut all_states.1;
        let reg_a = SideEffectRegistrar::new(state_a, id);
        let reg_b = SideEffectRegistrar::new(state_b, id);
        let ghost ra = reg_a;
        let ghost rb = reg_b;
        let api_a = a.build(reg_a);
        let api_b = b.build(reg_b);
        assert(call_ensures(A::build, (a, ra), api_a));
        assert(call_ensures(B::build, (b, rb), api_b));
        assert(*ra.side_effect == match *old(registrar.side_effect) {
            Some(st) => st.0,
            None => None,
        });
        assert(*rb.side_effect == match *old(registrar.side_effect) {
            Some(st) => st.1,
            None => None,
        });
        assert(*final(registrar.side_effect) == Some((*final(ra.side_effect), *final(rb.side_effect))));
        let api = (api_a, api_b);
        assert(call_ensures(A::build, (self.0, ra), api.0) && call_ensures(B::build, (self.1, rb), api.1));
        api
    }
}

/// Three side effects registered together; each keeps its own state.
impl<
    'a,
    SA: 'a,
    SB: 'a,
    SC: 'a,
    A: SideEffect<'a, SA>,
    B: SideEffect<'a, SB>,
    E: SideEffect<'a, SC>,
> SideEffect<'a, (Option<SA>, Option<SB>, Option<SC>)> for (A, B, E) {
    type Api = (A::Api, B::Api, E::Api);

    fn build(self, registrar: SideEffectRegistrar<'a, (Option<SA>, Option<SB>, Option<SC>)>) -> (api: Self::Api)
        ensures
            exists|ra: SideEffectRegistrar<'a, SA>, rb: SideEffectRegistrar<'a, SB>, rc: SideEffectRegistrar<'a, SC>|
                #[trigger] call_ensures(A::build, (self.0, ra), api.0)
                    && #[trigger] call_ensures(B::build, (self.1, rb), api.1)
                    && #[trigger] call_ensures(E::build, (self.2, rc), api.2)
                    && ra.id == registrar.id && rb.id == registrar.id && rc.id == registrar.id
                    && *ra.side_effect == match *old(registrar.side_effect) {
                        Some(st) => st.0,
                        None => None,
                    }
                    && *rb.side_effect == match *old(registrar.side_effect) {
                        Some(st) => st.1,
                        None => None,
                    }
                    && *rc.side_effect == match *old(registrar.side_effect) {
                        Some(st) => st.2,
                        None => None,
                    }
                    && *final(registrar.side_effect) == Some(
                        (*final(ra.side_effect), *final(rb.side_effect), *final(rc.side_effect)),
                    ),
    {
        let id = registrar.id;
        let (all_states, _, _) = registrar.raw((None, None, None));
        let (a, b, e) = self;
        let state_a = &mut all_states.0;
        let state_b = &mut all_states.1;
        let state_c = &mut all_states.2;
        let reg_a = SideEffectRegistrar::new(state_a, id);
        let reg_b = SideEffectRegistrar::new(state_b, id);
        let reg_c = SideEffectRegistrar::new(state_c, id);
        let ghost ra = reg_a;
        let ghost rb = reg_b;
        let ghost rc = reg_c;
        let api_a = a.build(reg_a);
        let api_b = b.build(reg_b);
        let api_c = e.build(reg_c);
        assert(call_ensures(A::build, (a, ra), api_a));
        assert(call_ensures(B::build, (b, rb), api_b));
        assert(call_ensures(E::build, (e, rc), api_c));
        assert(*final(registrar.side_effect) == Some(
            (*final(ra.side_effect), *final(rb.side_effect), *final(rc.side_effect)),
        ));
        let api = (api_a, api_b, api_c);
        assert(call_ensures(A::build, (self.0, ra), api.0) && call_ensures(B::build, (self.1, rb), api.1)
            && call_ensures(E::build, (self.2, rc), api.2));
        api
    }
}

/// Four side effects registered together; each keeps its own state.
impl<'a, S0: 'a, S1: 'a, S2: 'a, S3: 'a, E0: SideEffect<'a, S0>, E1: SideEffect<'a, S1>, E2: SideEffect<'a, S2>, E3: SideEffect<'a, S3>> SideEffect<'a, (Option<S0>, Option<S1>, Option<S2>, Option<S3>)> for (E0, E1, E2, E3) {
    type Api = (E0::Api, E1::Api, E2::Api, E3::Api);

    fn build(self, registrar: SideEffectRegistrar<'a, (Option<S0>, Option<S1>, Option<S2>, Option<S3>)>) -> (api: Self::Api)
        ensures
            exists|r0: SideEffectRegistrar<'a, S0>, r1: SideEffectRegistrar<'a, S1>, r2: SideEffectRegistrar<'a, S2>, r3: SideEffectRegistrar<'a, S3>|
                #[trigger] call_ensures(E0::build, (self.0, r0), api.0)
                    && #[trigger] call_ensures(E1::build, (self.1, r1), api.1)
                    && #[trigger] call_ensures(E2::build, (self.2, r2), api.2)
                    && #[trigger] call_ensures(E3::build, (self.3, r3), api.3)
                    && r0.id == registrar.id
                    && r1.id == registrar.id
                    && r2.id == registrar.id
                    && r3.id == registrar.id
                    && *r0.side_effect == match *old(registrar.side_effect) { Some(st) => st.0, None => None }
                    && *r1.side_effect == match *old(registrar.side_effect) { Some(st) => st.1, None => None }
                    && *r2.side_effect == match *old(registrar.side_effect) { Some(st) => st.2, None => None }
                    && *r3.side_effect == match *old(registrar.side_effect) { Some(st) => st.3, None => None }
                    && *final(registrar.side_effect) == Some((*final(r0.side_effect), *final(r1.side_effect), *final(r2.side_effect), *final(r3.side_effect))),
    {
        let id = registrar.id;
        let (all_states, _, _) = registrar.raw((None, None, None, None));
        let (e0, e1, e2, e3) = self;
        let state_0 = &mut all_states.0;
        let state_1 = &mut all_states.1;
        let state_2 = &mut all_states.2;
        let state_3 = &mut all_states.3;
        let reg_0 = SideEffectRegistrar::new(state_0, id);
        let reg_1 = SideEffectRegistrar::new(state_1, id);
        let reg_2 = SideEffectRegistrar::new(state_2, id);
        let reg_3 = SideEffectRegistrar::new(state_3, id);
        let ghost r0 = reg_0;
        let ghost r1 = reg_1;
        let ghost r2 = reg_2;
        let ghost r3 = reg_3;
        let api_0 = e0.build(reg_0);
        let api_1 = e1.build(reg_1);
        let api_2 = e2.build(reg_2);
        let api_3 = e3.build(reg_3);
        assert(call_ensures(E0::build, (e0, r0), api_0));
        assert(call_ensures(E1::build, (e1, r1), api_1));
        assert(call_ensures(E2::build, (e2, r2), api_2));
        assert(call_ensures(E3::build, (e3, r3), api_3));
        assert(*r0.side_effect == match *old(registrar.side_effect) { Some(st) => st.0, None => None });
        assert(*r1.side_effect == match *old(registrar.side_effect) { Some(st) => st.1, None => None });
        assert(*r2.side_effect == match *old(registrar.side_effect) { Some(st) => st.2, None => None });
        assert(*r3.side_effect == match *old(registrar.side_effect) { Some(st) => st.3, None => None });
        assert(*final(registrar.side_effect) == Some((*final(r0.side_effect), *final(r1.side_effect), *final(r2.side_effect), *final(r3.side_effect))));
        let api = (api_0, api_1, api_2, api_3);
        assert(call_ensures(E0::build, (self.0, r0), api.0) && call_ensures(E1::build, (self.1, r1), api.1) && call_ensures(E2::build, (self.2, r2), api.2) && call_ensures(E3::build, (self.3, r3), api.3));
        api
    }
}

/// Five side effects registered together; each keeps its own state.
impl<'a, S0: 'a, S1: 'a, S2: 'a, S3: 'a, S4: 'a, E0: SideEffect<'a, S0>, E1: SideEffect<'a, S1>, E2: SideEffect<'a, S2>, E3: SideEffect<'a, S3>, E4: SideEffect<'a, S4>> SideEffect<'a, (Option<S0>, Option<S1>, Option<S2>, Option<S3>, Option<S4>)> for (E0, E1, E2, E3, E4) {
    type Api = (E0::Api, E1::Api, E2::Api, E3::Api, E4::Api);

    fn build(self, registrar: SideEffectRegistrar<'a, (Option<S0>, Option<S1>, Option<S2>, Option<S3>, Option<S4>)>) -> (api: Self::Api)
        ensures
            exists|r0: SideEffectRegistrar<'a, S0>, r1: SideEffectRegistrar<'a, S1>, r2: SideEffectRegistrar<'a, S2>, r3: SideEffectRegistrar<'a, S3>, r4: SideEffectRegistrar<'a, S4>|
                #[trigger] call_ensures(E0::build, (self.0, r0), api.0)
                    && #[trigger] call_ensures(E1::build, (self.1, r1), api.1)
                    && #[trigger] call_ensures(E2::build, (self.2, r2), api.2)
                    && #[trigger] call_ensures(E3::build, (self.3, r3), api.3)
                    && #[trigger] call_ensures(E4::build, (self.4, r4), api.4)
                    && r0.id == registrar.id
                    && r1.id == registrar.id
                    && r2.id == registrar.id
                    && r3.id == registrar.id
                    && r4.id == registrar.id
                    && *r0.side_effect == match *old(registrar.side_effect) { Some(st) => st.0, None => None }
                    && *r1.side_effect == match *old(registrar.side_effect) { Some(st) => st.1, None => None }
                    && *r2.side_effect == match *old(registrar.side_effect) { Some(st) => st.2, None => None }
                    && *r3.side_effect == match *old(registrar.side_effect) { Some(st) => st.3, None => None }
                    && *r4.side_effect == match *old(registrar.side_effect) { Some(st) => st.4, None => None }
                    && *final(registrar.side_effect) == Some((*final(r0.side_effect), *final(r1.side_effect), *final(r2.side_effect), *final(r3.side_effect), *final(r4.side_effect))),
    {
        let id = registrar.id;
        let (all_states, _, _) = registrar.raw((None, None, None, None, None));
        let (e0, e1, e2, e3, e4) = self;
        let state_0 = &mut all_states.0;
        let state_1 = &mut all_states.1;
        let state_2 = &mut all_states.2;
        let state_3 = &mut all_states.3;
        let state_4 = &mut all_states.4;
        let reg_0 = SideEffectRegistrar::new(state_0, id);
        let reg_1 = SideEffectRegistrar::new(state_1, id);
        let reg_2 = SideEffectRegistrar::new(state_2, id);
        let reg_3 = SideEffectRegistrar::new(state_3, id);
        let reg_4 = SideEffectRegistrar::new(state_4, id);
        let ghost r0 = reg_0;
        let ghost r1 = reg_1;
        let ghost r2 = reg_2;
        let ghost r3 = reg_3;
        let ghost r4 = reg_4;
        let api_0 = e0.build(reg_0);
        let api_1 = e1.build(reg_1);
        let api_2 = e2.build(reg_2);
        let api_3 = e3.build(reg_3);
        let api_4 = e4.build(reg_4);
        assert(call_ensures(E0::build, (e0, r0), api_0));
        assert(call_ensures(E1::build, (e1, r1), api_1));
        assert(call_ensures(E2::build, (e2, r2), api_2));
        assert(call_ensures(E3::build, (e3, r3), api_3));
        assert(call_ensures(E4::build, (e4, r4), api_4));
        assert(*r0.side_effect == match *old(registrar.side_effect) { Some(st) => st.0, None => None });
        assert(*r1.side_effect == match *old(registrar.side_effect) { Some(st) => st.1, None => None });
        assert(*r2.side_effect == match *old(registrar.side_effect) { Some(st) => st.2, None => None });
        assert(*r3.side_effect == match *old(registrar.side_effect) { Some(st) => st.3, None => None });
        assert(*r4.side_effect == match *old(registrar.side_effect) { Some(st) => st.4, None => None });
        assert(*final(registrar.side_effect) == Some((*final(r0.side_effect), *final(r1.side_effect), *final(r2.side_effect), *final(r3.side_effect), *final(r4.side_effect))));
        let api = (api_0, api_1, api_2, api_3, api_4);
        assert(call_ensures(E0::build, (self.0, r0), api.0) && call_ensures(E1::build, (self.1, r1), api.1) && call_ensures(E2::build, (self.2, r2), api.2) && call_ensures(E3::build, (self.3, r3), api.3) && call_ensures(E4::build, (self.4, r4), api.4));
        api
    }
}

/// Six side effects registered together; each keeps its own state.
impl<'a, S0: 'a, S1: 'a, S2: 'a, S3: 'a, S4: 'a, S5: 'a, E0: SideEffect<'a, S0>, E1: SideEffect<'a, S1>, E2: SideEffect<'a, S2>, E3: SideEffect<'a, S3>, E4: SideEffect<'a, S4>, E5: SideEffect<'a, S5>> SideEffect<'a, (Option<S0>, Option<S1>, Option<S2>, Option<S3>, Option<S4>, Option<S5>)> for (E0, E1, E2, E3, E4, E5) {
    type Api = (E0::Api, E1::Api, E2::Api, E3::Api, E4::Api, E5::Api);

    fn build(self, registrar: SideEffectRegistrar<'a, (Option<S0>, Option<S1>, Option<S2>, Option<S3>, Option<S4>, Option<S5>)>) -> (api: Self::Api)
        ensures
            exists|r0: SideEffectRegistrar<'a, S0>, r1: SideEffectRegistrar<'a, S1>, r2: SideEffectRegistrar<'a, S2>, r3: SideEffectRegistrar<'a, S3>, r4: SideEffectRegistrar<'a, S4>, r5: SideEffectRegistrar<'a, S5>|
                #[trigger] call_ensures(E0::build, (self.0, r0), api.0)
                    && #[trigger] call_ensures(E1::build, (self.1, r1), api.1)
                    && #[trigger] call_ensures(E2::build, (self.2, r2), api.2)
                    && #[trigger] call_ensures(E3::build, (self.3, r3), api.3)
                    && #[trigger] call_ensures(E4::build, (self.4, r4), api.4)
                    && #[trigger] call_ensures(E5::build, (self.5, r5), api.5)
                    && r0.id == registrar.id
                    && r1.id == registrar.id
                    && r2.id == registrar.id
                    && r3.id == registrar.id
                    && r4.id == registrar.id
                    && r5.id == registrar.id
                    && *r0.side_effect == match *old(registrar.side_effect) { Some(st) => st.0, None => None }
                    && *r1.side_effect == match *old(registrar.side_effect) { Some(st) => st.1, None => None }
                    && *r2.side_effect == match *old(registrar.side_effect) { Some(st) => st.2, None => None }
                    && *r3.side_effect == match *old(registrar.side_effect) { Some(st) => st.3, None => None }
                    && *r4.side_effect == match *old(registrar.side_effect) { Some(st) => st.4, None => None }
                    && *r5.side_effect == match *old(registrar.side_effect) { Some(st) => st.5, None => None }
                    && *final(registrar.side_effect) == Some((*final(r0.side_effect), *final(r1.side_effect), *final(r2.side_effect), *final(r3.side_effect), *final(r4.side_effect), *final(r5.side_effect))),
    {
        let id = registrar.id;
        let (all_states, _, _) = registrar.raw((None, None, None, None, None, None));
        let (e0, e1, e2, e3, e4, e5) = self;
        let state_0 = &mut all_states.0;
        let state_1 = &mut all_states.1;
        let state_2 = &mut all_states.2;
        let state_3 = &mut all_states.3;
        let state_4 = &mut all_states.4;
        let state_5 = &mut all_states.5;
        let reg_0 = SideEffectRegistrar::new(state_0, id);
        let reg_1 = SideEffectRegistrar::new(state_1, id);
        let reg_2 = SideEffectRegistrar::new(state_2, id);
        let reg_3 = SideEffectRegistrar::new(state_3, id);
        let reg_4 = SideEffectRegistrar::new(state_4, id);
        let reg_5 = SideEffectRegistrar::new(state_5, id);
        let ghost r0 = reg_0;
        let ghost r1 = reg_1;
        let ghost r2 = reg_2;
        let ghost r3 = reg_3;
        let ghost r4 = reg_4;
        let ghost r5 = reg_5;
        let api_0 = e0.build(reg_0);
        let api_1 = e1.build(reg_1);
        let api_2 = e2.build(reg_2);
        let api_3 = e3.build(reg_3);
        let api_4 = e4.build(reg_4);
        let api_5 = e5.build(reg_5);
        assert(call_ensures(E0::build, (e0, r0), api_0));
        assert(call_ensures(E1::build, (e1, r1), api_1));
        assert(call_ensures(E2::build, (e2, r2), api_2));
        assert(call_ensures(E3::build, (e3, r3), api_3));
        assert(call_ensures(E4::build, (e4, r4), api_4));
        assert(call_ensures(E5::build, (e5, r5), api_5));
        assert(*r0.side_effect == match *old(registrar.side_effect) { Some(st) => st.0, None => None });
        assert(*r1.side_effect == match *old(registrar.side_effect) { Some(st) => st.1, None => None });
        assert(*r2.side_effect == match *old(registrar.side_effect) { Some(st) => st.2, None => None });
        assert(*r3.side_effect == match *old(registrar.side_effect) { Some(st) => st.3, None => None });
        assert(*r4.side_effect == match *old(registrar.side_effect) { Some(st) => st.4, None => None });
        assert(*r5.side_effect == match *old(registrar.side_effect) { Some(st) => st.5, None => None });
        assert(*final(registrar.side_effect) == Some((*final(r0.side_effect), *final(r1.side_effect), *final(r2.side_effect), *final(r3.side_effect), *final(r4.side_effect), *final(r5.side_effect))));
        let api = (api_0, api_1, api_2, api_3, api_4, api_5);
        assert(call_ensures(E0::build, (self.0, r0), api.0) && call_ensures(E1::build, (self.1, r1), api.1) && call_ensures(E2::build, (self.2, r2), api.2) && call_ensures(E3::build, (self.3, r3), api.3) && call_ensures(E4::build, (self.4, r4), api.4) && call_ensures(E5::build, (self.5, r5), api.5));
        api
    }
}

/// Seven side effects registered together; each keeps its own state.
impl<'a, S0: 'a, S1: 'a, S2: 'a, S3: 'a, S4: 'a, S5: 'a, S6: 'a, E0: SideEffect<'a, S0>, E1: SideEffect<'a, S1>, E2: SideEffect<'a, S2>, E3: SideEffect<'a, S3>, E4: SideEffect<'a, S4>, E5: SideEffect<'a, S5>, E6: SideEffect<'a, S6>> SideEffect<'a, (Option<S0>, Option<S1>, Option<S2>, Option<S3>, Option<S4>, Option<S5>, Option<S6>)> for (E0, E1, E2, E3, E4, E5, E6) {
    type Api = (E0::Api, E1::Api, E2::Api, E3::Api, E4::Api, E5::Api, E6::Api);

    fn build(self, registrar: SideEffectRegistrar<'a, (Option<S0>, Option<S1>, Option<S2>, Option<S3>, Option<S4>, Option<S5>, Option<S6>)>) -> (api: Self::Api)
        ensures
            exists|r0: SideEffectRegistrar<'a, S0>, r1: SideEffectRegistrar<'a, S1>, r2: SideEffectRegistrar<'a, S2>, r3: SideEffectRegistrar<'a, S3>, r4: SideEffectRegistrar<'a, S4>, r5: SideEffectRegistrar<'a, S5>, r6: SideEffectRegistrar<'a, S6>|
                #[trigger] call_ensures(E0::build, (self.0, r0), api.0)
                    && #[trigger] call_ensures(E1::build, (self.1, r1), api.1)
                    && #[trigger] call_ensures(E2::build, (self.2, r2), api.2)
                    && #[trigger] call_ensures(E3::build, (self.3, r3), api.3)
                    && #[trigger] call_ensures(E4::build, (self.4, r4), api.4)
                    && #[trigger] call_ensures(E5::build, (self.5, r5), api.5)
                    && #[trigger] call_ensures(E6::build, (self.6, r6), api.6)
                    && r0.id == registrar.id
                    && r1.id == registrar.id
                    && r2.id == registrar.id
                    && r3.id == registrar.id
                    && r4.id == registrar.id
                    && r5.id == registrar.id
                    && r6.id == registrar.id
                    && *r0.side_effect == match *old(registrar.side_effect) { Some(st) => st.0, None => None }
                    && *r1.side_effect == match *old(registrar.side_effect) { Some(st) => st.1, None => None }
                    && *r2.side_effect == match *old(registrar.side_effect) { Some(st) => st.2, None => None }
                    && *r3.side_effect == match *old(registrar.side_effect) { Some(st) => st.3, None => None }
                    && *r4.side_effect == match *old(registrar.side_effect) { Some(st) => st.4, None => None }
                    && *r5.side_effect == match *old(registrar.side_effect) { Some(st) => st.5, None => None }
                    && *r6.side_effect == match *old(registrar.side_effect) { Some(st) => st.6, None => None }
                    && *final(registrar.side_effect) == Some((*final(r0.side_effect), *final(r1.side_effect), *final(r2.side_effect), *final(r3.side_effect), *final(r4.side_effect), *final(r5.side_effect), *final(r6.side_effect))),
    {
        let id = registrar.id;
        let (all_states, _, _) = registrar.raw((None, None, None, None, None, None, None));
        let (e0, e1, e2, e3, e4, e5, e6) = self;
        let state_0 = &mut all_states.0;
        let state_1 = &mut all_states.1;
        let state_2 = &mut all_states.2;
        let state_3 = &mut all_states.3;
        let state_4 = &mut all_states.4;
        let state_5 = &mut all_states.5;
        let state_6 = &mut all_states.6;
        let reg_0 = SideEffectRegistrar::new(state_0, id);
        let reg_1 = SideEffectRegistrar::new(state_1, id);
        let reg_2 = SideEffectRegistrar::new(state_2, id);
        let reg_3 = SideEffectRegistrar::new(state_3, id);
        let reg_4 = SideEffectRegistrar::new(state_4, id);
        let reg_5 = SideEffectRegistrar::new(state_5, id);
        let reg_6 = SideEffectRegistrar::new(state_6, id);
        let ghost r0 = reg_0;
        let ghost r1 = reg_1;
        let ghost r2 = reg_2;
        let ghost r3 = reg_3;
        let ghost r4 = reg_4;
        let ghost r5 = reg_5;
        let ghost r6 = reg_6;
        let api_0 = e0.build(reg_0);
        let api_1 = e1.build(reg_1);
        let api_2 = e2.build(reg_2);
        let api_3 = e3.build(reg_3);
        let api_4 = e4.build(reg_4);
        let api_5 = e5.build(reg_5);
        let api_6 = e6.build(reg_6);
        assert(call_ensures(E0::build, (e0, r0), api_0));
        assert(call_ensures(E1::build, (e1, r1), api_1));
        assert(call_ensures(E2::build, (e2, r2), api_2));
        assert(call_ensures(E3::build, (e3, r3), api_3));
        assert(call_ensures(E4::build, (e4, r4), api_4));
        assert(call_ensures(E5::build, (e5, r5), api_5));
        assert(call_ensures(E6::build, (e6, r6), api_6));
        assert(*r0.side_effect == match *old(registrar.side_effect) { Some(st) => st.0, None => None });
        assert(*r1.side_effect == match *old(registrar.side_effect) { Some(st) => st.1, None => None });
        assert(*r2.side_effect == match *old(registrar.side_effect) { Some(st) => st.2, None => None });
        assert(*r3.side_effect == match *old(registrar.side_effect) { Some(st) => st.3, None => None });
        assert(*r4.side_effect == match *old(registrar.side_effect) { Some(st) => st.4, None => None });
        assert(*r5.side_effect == match *old(registrar.side_effect) { Some(st) => st.5, None => None });
        assert(*r6.side_effect == match *old(registrar.side_effect) { Some(st) => st.6, None => None });
        assert(*final(registrar.side_effect) == Some((*final(r0.side_effect), *final(r1.side_effect), *final(r2.side_effect), *final(r3.side_effect), *final(r4.side_effect), *final(r5.side_effect), *final(r6.side_effect))));
        let api = (api_0, api_1, api_2, api_3, api_4, api_5, api_6);
        assert(call_ensures(E0::build, (self.0, r0), api.0) && call_ensures(E1::build, (self.1, r1), api.1) && call_ensures(E2::build, (self.2, r2), api.2) && call_ensures(E3::build, (self.3, r3), api.3) && call_ensures(E4::build, (self.4, r4), api.4) && call_ensures(E5::build, (self.5, r5), api.5) && call_ensures(E6::build, (self.6, r6), api.6));
        api
    }
}

/// Eight side effects registered together; each keeps its own state.
impl<'a, S0: 'a, S1: 'a, S2: 'a, S3: 'a, S4: 'a, S5: 'a, S6: 'a, S7: 'a, E0: SideEffect<'a, S0>, E1: SideEffect<'a, S1>, E2: SideEffect<'a, S2>, E3: SideEffect<'a, S3>, E4: SideEffect<'a, S4>, E5: SideEffect<'a, S5>, E6: SideEffect<'a, S6>, E7: SideEffect<'a, S7>> SideEffect<'a, (Option<S0>, Option<S1>, Option<S2>, Option<S3>, Option<S4>, Option<S5>, Option<S6>, Option<S7>)> for (E0, E1, E2, E3, E4, E5, E6, E7) {
    type Api = (E0::Api, E1::Api, E2::Api, E3::Api, E4::Api, E5::Api, E6::Api, E7::Api);

    fn build(self, registrar: SideEffectRegistrar<'a, (Option<S0>, Option<S1>, Option<S2>, Option<S3>, Option<S4>, Option<S5>, Option<S6>, Option<S7>)>) -> (api: Self::Api)
        ensures
            exists|r0: SideEffectRegistrar<'a, S0>, r1: SideEffectRegistrar<'a, S1>, r2: SideEffectRegistrar<'a, S2>, r3: SideEffectRegistrar<'a, S3>, r4: SideEffectRegistrar<'a, S4>, r5: SideEffectRegistrar<'a, S5>, r6: SideEffectRegistrar<'a, S6>, r7: SideEffectRegistrar<'a, S7>|
                #[trigger] call_ensures(E0::build, (self.0, r0), api.0)
                    && #[trigger] call_ensures(E1::build, (self.1, r1), api.1)
                    && #[trigger] call_ensures(E2::build, (self.2, r2), api.2)
                    && #[trigger] call_ensures(E3::build, (self.3, r3), api.3)
                    && #[trigger] call_ensures(E4::build, (self.4, r4), api.4)
                    && #[trigger] call_ensures(E5::build, (self.5, r5), api.5)
                    && #[trigger] call_ensures(E6::build, (self.6, r6), api.6)
                    && #[trigger] call_ensures(E7::build, (self.7, r7), api.7)
                    && r0.id == registrar.id
                    && r1.id == registrar.id
                    && r2.id == registrar.id
                    && r3.id == registrar.id
                    && r4.id == registrar.id
                    && r5.id == registrar.id
                    && r6.id == registrar.id
                    && r7.id == registrar.id
                    && *r0.side_effect == match *old(registrar.side_effect) { Some(st) => st.0, None => None }
                    && *r1.side_effect == match *old(registrar.side_effect) { Some(st) => st.1, None => None }
                    && *r2.side_effect == match *old(registrar.side_effect) { Some(st) => st.2, None => None }
                    && *r3.side_effect == match *old(registrar.side_effect) { Some(st) => st.3, None => None }
                    && *r4.side_effect == match *old(registrar.side_effect) { Some(st) => st.4, None => None }
                    && *r5.side_effect == match *old(registrar.side_effect) { Some(st) => st.5, None => None }
                    && *r6.side_effect == match *old(registrar.side_effect) { Some(st) => st.6, None => None }
                    && *r7.side_effect == match *old(registrar.side_effect) { Some(st) => st.7, None => None }
                    && *final(registrar.side_effect) == Some((*final(r0.side_effect), *final(r1.side_effect), *final(r2.side_effect), *final(r3.side_effect), *final(r4.side_effect), *final(r5.side_effect), *final(r6.side_effect), *final(r7.side_effect))),
    {
        let id = registrar.id;
        let (all_states, _, _) = registrar.raw((None, None, None, None, None, None, None, None));
        let (e0, e1, e2, e3, e4, e5, e6, e7) = self;
        let state_0 = &mut all_states.0;
        let state_1 = &mut all_states.1;
        let state_2 = &mut all_states.2;
        let state_3 = &mut all_states.3;
        let state_4 = &mut all_states.4;
        let state_5 = &mut all_states.5;
        let state_6 = &mut all_states.6;
        let state_7 = &mut all_states.7;
        let reg_0 = SideEffectRegistrar::new(state_0, id);
        let reg_1 = SideEffectRegistrar::new(state_1, id);
        let reg_2 = SideEffectRegistrar::new(state_2, id);
        let reg_3 = SideEffectRegistrar::new(state_3, id);
        let reg_4 = SideEffectRegistrar::new(state_4, id);
        let reg_5 = SideEffectRegistrar::new(state_5, id);
        let reg_6 = SideEffectRegistrar::new(state_6, id);
        let reg_7 = SideEffectRegistrar::new(state_7, id);
        let ghost r0 = reg_0;
        let ghost r1 = reg_1;
        let ghost r2 = reg_2;
        let ghost r3 = reg_3;
        let ghost r4 = reg_4;
        let ghost r5 = reg_5;
        let ghost r6 = reg_6;
        let ghost r7 = reg_7;
        let api_0 = e0.build(reg_0);
        let api_1 = e1.build(reg_1);
        let api_2 = e2.build(reg_2);
        let api_3 = e3.build(reg_3);
        let api_4 = e4.build(reg_4);
        let api_5 = e5.build(reg_5);
        let api_6 = e6.build(reg_6);
        let api_7 = e7.build(reg_7);
        assert(call_ensures(E0::build, (e0, r0), api_0));
        assert(call_ensures(E1::build, (e1, r1), api_1));
        assert(call_ensures(E2::build, (e2, r2), api_2));
        assert(call_ensures(E3::build, (e3, r3), api_3));
        assert(call_ensures(E4::build, (e4, r4), api_4));
        assert(call_ensures(E5::build, (e5, r5), api_5));
        assert(call_ensures(E6::build, (e6, r6), api_6));
        assert(call_ensures(E7::build, (e7, r7), api_7));
        assert(*r0.side_effect == match *old(registrar.side_effect) { Some(st) => st.0, None => None });
        assert(*r1.side_effect == match *old(registrar.side_effect) { Some(st) => st.1, None => None });
        assert(*r2.side_effect == match *old(registrar.side_effect) { Some(st) => st.2, None => None });
        assert(*r3.side_effect == match *old(registrar.side_effect) { Some(st) => st.3, None => None });
        assert(*r4.side_effect == match *old(registrar.side_effect) { Some(st) => st.4, None => None });
        assert(*r5.side_effect == match *old(registrar.side_effect) { Some(st) => st.5, None => None });
        assert(*r6.side_effect == match *old(registrar.side_effect) { Some(st) => st.6, None => None });
        assert(*r7.side_effect == match *old(registrar.side_effect) { Some(st) => st.7, None => None });
        assert(*final(registrar.side_effect) == Some((*final(r0.side_effect), *final(r1.side_effect), *final(r2.side_effect), *final(r3.side_effect), *final(r4.side_effect), *final(r5.side_effect), *final(r6.side_effect), *final(r7.side_effect))));
        let api = (api_0, api_1, api_2, api_3, api_4, api_5, api_6, api_7);
        assert(call_ensures(E0::build, (self.0, r0), api.0) && call_ensures(E1::build, (self.1, r1), api.1) && call_ensures(E2::build, (self.2, r2), api.2) && call_ensures(E3::build, (self.3, r3), api.3) && call_ensures(E4::build, (self.4, r4), api.4) && call_ensures(E5::build, (self.5, r5), api.5) && call_ensures(E6::build, (self.6, r6), api.6) && call_ensures(E7::build, (self.7, r7), api.7));
        api
    }
}

} // verus!
