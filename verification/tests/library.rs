use std::sync::atomic::{AtomicU32, Ordering};

use rearch::effects::{Cloned, EffectLifetimeFixer0};
use rearch::mutation::{mutation, MutationHandle, MutationState};
use rearch::side_effects::{
    async_persist_state, lazy_reducer, lazy_state, lazy_value, reducer, run_once, state,
    sync_persist, AsyncPersistState, AsyncState, Persister, ReducerDispatch,
};
use rearch::ui::{keys_eq, view, ViewLayer};
use rearch::{
    Capsule, CapsuleHandle, CapsuleId, Container, ContainerWriteTxn, DynCapsuleKey,
    SideEffectRegistrar, SideEffectStateMutater,
};

#[test]
fn capsule_id_lays_out_kind_then_key() {
    let id = CapsuleId::new(3, 7);
    assert_eq!(id.raw(), 3 * (1u128 << 64) + 7);
    let back = CapsuleId::from_raw(id.raw());
    assert_eq!((back.capsule_type(), back.capsule_key()), (3, 7));
    assert!(back.same_as(&id));
    assert!(!CapsuleId::new(7, 3).same_as(&id));
}

#[test]
fn dyn_capsule_keys_compare_reductions() {
    assert!(5u8.dyn_eq(&5u8));
    assert!(!true.dyn_eq(&false));
    assert!(().dyn_eq(&()));
}

#[test]
fn views_stack_their_layers() {
    let v = view::<&str>().inject("scoped_state").keyed(3u8).child("text");
    assert_eq!(v.layers.len(), 3);
    assert!(matches!(v.layers[0], ViewLayer::Injection { build_injection_data: "scoped_state" }));
    assert!(matches!(v.layers[1], ViewLayer::Key { key: 3 }));
    assert!(matches!(v.layers[2], ViewLayer::Child { build_child: "text" }));
    assert!(keys_eq(&1u32, &1u32));
    assert!(!keys_eq(&1u32, &2u32));
}

#[test]
fn mutation_state_steps() {
    assert_eq!(MutationState::Complete(3).loading(), MutationState::Loading(Some(3)));
    assert_eq!(MutationState::Loading(Some(3)).cleared(), MutationState::Idle(Some(3)));
    assert_eq!(MutationState::<u8>::Idle(None).loading(), MutationState::Loading(None));
    assert_eq!(MutationState::Idle(Some(2)).map(|x| x * 10), MutationState::Idle(Some(20)));
    assert_eq!(MutationState::Complete(2).map(|x| x + 1).data(), Some(3));
    let mut state = MutationState::Complete(1);
    if let MutationState::Complete(x) = state.as_mut() {
        *x = 9;
    }
    assert_eq!(state, MutationState::Complete(9));
}

#[test]
fn async_states_keep_their_latest_data() {
    assert_eq!(AsyncState::Complete(4).loading(), AsyncState::Loading(Some(4)));
    assert_eq!(AsyncState::Loading(Some(4)).cleared(), AsyncState::Idle(Some(4)));
    assert_eq!(AsyncState::<u8>::Idle(None).data(), None);
    assert_eq!(AsyncPersistState::Complete(1).data(), Some(1));
    assert_eq!(rearch::mutation::AsyncState::Loading(Some(2)).data(), Some(2));
}

#[test]
fn async_persist_state_combines_write_and_read() {
    assert_eq!(
        async_persist_state(AsyncState::Idle(None), AsyncState::Loading(Some(1))),
        AsyncPersistState::Loading(Some(1))
    );
    assert_eq!(
        async_persist_state(AsyncState::Idle(None), AsyncState::Complete(2)),
        AsyncPersistState::Complete(2)
    );
    assert_eq!(
        async_persist_state(AsyncState::Loading(None), AsyncState::Complete(2)),
        AsyncPersistState::Loading(Some(2))
    );
    assert_eq!(
        async_persist_state(AsyncState::Loading(Some(3)), AsyncState::Complete(2)),
        AsyncPersistState::Loading(Some(3))
    );
    assert_eq!(
        async_persist_state(AsyncState::Complete(4), AsyncState::Loading(None)),
        AsyncPersistState::Complete(4)
    );
}

/// A capsule with a mutation.
struct Saving;

impl Capsule for Saving {
    type Data = (MutationState<u32>, MutationHandle);
    type State = MutationState<Cloned<u32>>;
    type Key = ();

    fn capsule_type(&self) -> u64 {
        0
    }

    fn key(&self) {}

    fn spec_capsule_type(&self) -> u64 {
        0
    }

    fn spec_key(&self) {}

    fn build(&self, handle: CapsuleHandle<'_, Self>) -> Self::Data {
        let CapsuleHandle { register, .. } = handle;
        register.register(mutation::<Cloned<u32>>())
    }

    fn spec_eq(old: &Self::Data, new: &Self::Data) -> bool {
        <Self as Capsule>::eq(old, new)
    }

    fn eq(_old: &Self::Data, _new: &Self::Data) -> bool {
        false
    }
}

#[test]
fn mutation_starts_completes_and_clears() {
    let mut container = Container::new();
    let (state, handle) = container.read(Saving);
    assert_eq!(state, MutationState::Idle(None));
    handle.start(&mut container);
    assert_eq!(container.read(Saving).0, MutationState::Loading(None));
    handle.complete(&mut container, 5);
    assert_eq!(container.read(Saving).0, MutationState::Complete(5));
    handle.start(&mut container);
    assert_eq!(container.read(Saving).0, MutationState::Loading(Some(5)));
    handle.clear(&mut container);
    assert_eq!(container.read(Saving).0, MutationState::Idle(Some(5)));
}

static RUN_ONCE_CALLS: AtomicU32 = AtomicU32::new(0);
static LAZY_INITS: AtomicU32 = AtomicU32::new(0);
static WRITES: AtomicU32 = AtomicU32::new(0);

fn count_run_once() {
    RUN_ONCE_CALLS.fetch_add(1, Ordering::SeqCst);
}

fn lazy_ten() -> u32 {
    LAZY_INITS.fetch_add(1, Ordering::SeqCst);
    10
}

fn read_persisted() -> u32 {
    7
}

fn write_persisted(data: u32) -> u32 {
    WRITES.fetch_add(1, Ordering::SeqCst);
    data * 2
}

fn add(state: u32, action: u32) -> u32 {
    state + action
}

type Reduce = fn(u32, u32) -> u32;

#[derive(Clone, Copy, Debug, PartialEq, Eq)]
enum Effects {
    RunsOnce,
    Lazy,
    Reducing,
    LazyReducing,
    Persisting,
}

#[derive(Default)]
struct EffectsState {
    unit: Option<()>,
    lazy: Option<(Option<u32>, Option<u32>)>,
    reducing: Option<u32>,
    persisted: Option<u32>,
}

#[derive(Clone, Debug)]
enum EffectsData {
    Nothing,
    Lazy(u32, u32, SideEffectStateMutater),
    Reducing(u32, ReducerDispatch<u32, Reduce>),
    Persisting(u32, Persister<fn(u32) -> u32>),
}

impl Capsule for Effects {
    type Data = EffectsData;
    type State = EffectsState;
    type Key = ();

    fn capsule_type(&self) -> u64 {
        match self {
            Effects::RunsOnce => 0,
            Effects::Lazy => 1,
            Effects::Reducing => 2,
            Effects::LazyReducing => 3,
            Effects::Persisting => 4,
        }
    }

    fn key(&self) {}

    fn spec_capsule_type(&self) -> u64 {
        self.capsule_type()
    }

    fn spec_key(&self) {}

    fn build(&self, handle: CapsuleHandle<'_, Self>) -> EffectsData {
        let CapsuleHandle { register, .. } = handle;
        let id = register.id;
        let (st, _, _) = register.raw(EffectsState::default());
        match self {
            Effects::RunsOnce => {
                SideEffectRegistrar::new(&mut st.unit, id).register(run_once(count_run_once));
                EffectsData::Nothing
            }
            Effects::Lazy => {
                let ((s, set_s), v) = SideEffectRegistrar::new(&mut st.lazy, id)
                    .register((lazy_state(lazy_ten), lazy_value(lazy_ten)));
                EffectsData::Lazy(*s, *v, set_s)
            }
            Effects::Reducing => {
                let (s, dispatch) = SideEffectRegistrar::new(&mut st.reducing, id)
                    .register(reducer(add as Reduce, 1));
                EffectsData::Reducing(s, dispatch)
            }
            Effects::LazyReducing => {
                let (s, dispatch) = SideEffectRegistrar::new(&mut st.reducing, id)
                    .register(lazy_reducer(add as Reduce, lazy_ten));
                EffectsData::Reducing(s, dispatch)
            }
            Effects::Persisting => {
                let (s, persister) = SideEffectRegistrar::new(&mut st.persisted, id).register(
                    sync_persist(read_persisted, write_persisted as fn(u32) -> u32),
                );
                EffectsData::Persisting(*s, persister)
            }
        }
    }

    fn spec_eq(old: &Self::Data, new: &Self::Data) -> bool {
        <Self as Capsule>::eq(old, new)
    }

    fn eq(_old: &EffectsData, _new: &EffectsData) -> bool {
        false
    }
}

#[test]
fn run_once_runs_on_the_first_build_only() {
    let mut container = Container::new();
    container.read(Effects::RunsOnce);
    container.run_side_effect_txn(|c: &mut Container<Effects>| {
        let _ = c.read(Effects::RunsOnce);
    });
    let id = CapsuleId::new(Effects::RunsOnce.capsule_type(), 0);
    container.rebuild(&SideEffectStateMutater { id });
    assert_eq!(RUN_ONCE_CALLS.load(Ordering::SeqCst), 1);
}

#[test]
fn lazy_effects_initialize_once() {
    let mut container = Container::new();
    let EffectsData::Lazy(s, v, set_s) = container.read(Effects::Lazy) else {
        unreachable!()
    };
    assert_eq!((s, v), (10, 10));
    container.run_side_effect_mutation(&set_s, |st: &mut EffectsState| {
        if let Some(lazy) = st.lazy.as_mut() {
            lazy.0 = Some(11);
        }
    });
    let EffectsData::Lazy(s, v, _) = container.read(Effects::Lazy) else {
        unreachable!()
    };
    assert_eq!((s, v), (11, 10));
    assert_eq!(LAZY_INITS.load(Ordering::SeqCst), 2);
}

fn reduced(container: &mut Container<Effects>, capsule: Effects) -> (u32, ReducerDispatch<u32, Reduce>) {
    match container.read(capsule) {
        EffectsData::Reducing(s, dispatch) => (s, dispatch),
        _ => unreachable!(),
    }
}

#[test]
fn reducers_apply_dispatched_actions() {
    let mut container = Container::new();
    let (s, dispatch) = reduced(&mut container, Effects::Reducing);
    assert_eq!(s, 1);
    let project = |container: &mut Container<Effects>, action: u32| {
        container.run_side_effect_mutation(&dispatch.mutater, |st: &mut EffectsState| {
            st.reducing = st.reducing.map(|s| (dispatch.reducer)(s, action));
        });
    };
    project(&mut container, 4);
    assert_eq!(reduced(&mut container, Effects::Reducing).0, 5);

    let (s, _) = reduced(&mut container, Effects::LazyReducing);
    assert_eq!(s, 10);
}

/// A capsule whose whole state is one reducer.
struct Counter;

impl Capsule for Counter {
    type Data = (u32, ReducerDispatch<u32, Reduce>);
    type State = u32;
    type Key = ();

    fn capsule_type(&self) -> u64 {
        0
    }

    fn key(&self) {}

    fn spec_capsule_type(&self) -> u64 {
        0
    }

    fn spec_key(&self) {}

    fn build(&self, handle: CapsuleHandle<'_, Self>) -> Self::Data {
        let CapsuleHandle { register, .. } = handle;
        register.register(reducer(add as Reduce, 0))
    }

    fn spec_eq(old: &Self::Data, new: &Self::Data) -> bool {
        <Self as Capsule>::eq(old, new)
    }

    fn eq(_old: &Self::Data, _new: &Self::Data) -> bool {
        false
    }
}

#[test]
fn reducer_dispatch_rebuilds_with_the_reduced_state() {
    let mut container = Container::new();
    let (s, dispatch) = container.read(Counter);
    assert_eq!(s, 0);
    dispatch.dispatch(&mut container, 3);
    let (s, dispatch) = container.read(Counter);
    assert_eq!(s, 3);
    dispatch.dispatch(&mut container, 4);
    assert_eq!(container.read(Counter).0, 7);
}

#[test]
fn reducer_dispatch_reduces_the_state_of_its_build() {
    let mut container = Container::new();
    let (_, dispatch) = container.read(Counter);
    dispatch.dispatch(&mut container, 3);
    dispatch.dispatch(&mut container, 4);
    assert_eq!(container.read(Counter).0, 4);
}

/// A capsule whose whole state is persisted.
struct Persisted;

impl Capsule for Persisted {
    type Data = (u32, Persister<fn(u32) -> u32>);
    type State = u32;
    type Key = ();

    fn capsule_type(&self) -> u64 {
        0
    }

    fn key(&self) {}

    fn spec_capsule_type(&self) -> u64 {
        0
    }

    fn spec_key(&self) {}

    fn build(&self, handle: CapsuleHandle<'_, Self>) -> Self::Data {
        let CapsuleHandle { register, .. } = handle;
        let (s, persister) =
            register.register(sync_persist(read_persisted, write_persisted as fn(u32) -> u32));
        (*s, persister)
    }

    fn spec_eq(old: &Self::Data, new: &Self::Data) -> bool {
        <Self as Capsule>::eq(old, new)
    }

    fn eq(_old: &Self::Data, _new: &Self::Data) -> bool {
        false
    }
}

#[test]
fn sync_persist_reads_then_keeps_what_was_written() {
    let mut container = Container::new();
    let (s, persister) = container.read(Persisted);
    assert_eq!(s, 7);
    persister.persist(&mut container, 21);
    assert_eq!(container.read(Persisted).0, 42);
    assert_eq!(WRITES.load(Ordering::SeqCst), 1);
    let EffectsData::Persisting(s, _) = Container::new().read(Effects::Persisting) else {
        unreachable!()
    };
    assert_eq!(s, 7);
}

/// A capsule whose side effect is a closure over the registrar.
struct ClosureEffect;

impl Capsule for ClosureEffect {
    type Data = u8;
    type State = Cloned<u8>;
    type Key = ();

    fn capsule_type(&self) -> u64 {
        0
    }

    fn key(&self) {}

    fn spec_capsule_type(&self) -> u64 {
        0
    }

    fn spec_key(&self) {}

    fn build(&self, handle: CapsuleHandle<'_, Self>) -> u8 {
        let CapsuleHandle { register, .. } = handle;
        register.register(EffectLifetimeFixer0::new(|r: SideEffectRegistrar<'_, Cloned<u8>>| {
            r.register(rearch::effects::value::<Cloned<u8>>(9))
        }))
    }

    fn spec_eq(old: &Self::Data, new: &Self::Data) -> bool {
        <Self as Capsule>::eq(old, new)
    }

    fn eq(old: &u8, new: &u8) -> bool {
        old == new
    }
}

#[test]
fn closure_side_effects_build_their_api() {
    assert_eq!(Container::new().read(ClosureEffect), 9);
}

static INDEPENDENT_BUILDS: AtomicU32 = AtomicU32::new(0);

/// A piece of state, a capsule that reads it, and one that does not.
#[derive(Clone, Copy, Debug, PartialEq, Eq)]
enum Laws {
    Stateful,
    Reader,
    Independent,
}

impl Capsule for Laws {
    type Data = (u32, Option<SideEffectStateMutater>);
    type State = u32;
    type Key = ();

    fn capsule_type(&self) -> u64 {
        match self {
            Laws::Stateful => 0,
            Laws::Reader => 1,
            Laws::Independent => 2,
        }
    }

    fn key(&self) {}

    fn spec_capsule_type(&self) -> u64 {
        self.capsule_type()
    }

    fn spec_key(&self) {}

    fn build(&self, handle: CapsuleHandle<'_, Self>) -> Self::Data {
        let CapsuleHandle { mut get, register } = handle;
        match self {
            Laws::Stateful => {
                let (s, set_s) = register.register(state(0));
                (*s, Some(set_s))
            }
            Laws::Reader => (get.as_ref(Laws::Stateful).0 * 2, None),
            Laws::Independent => {
                INDEPENDENT_BUILDS.fetch_add(1, Ordering::SeqCst);
                register.register(rearch::effects::as_listener());
                (100, None)
            }
        }
    }

    fn spec_eq(old: &Self::Data, new: &Self::Data) -> bool {
        <Self as Capsule>::eq(old, new)
    }

    fn eq(old: &Self::Data, new: &Self::Data) -> bool {
        old.0 == new.0
    }
}

#[test]
fn mutation_spares_independent_capsules() {
    let mut container = Container::new();
    let ((_, set_s), (reader, _), (independent, _)) =
        (container.read(Laws::Stateful), container.read(Laws::Reader), container.read(Laws::Independent));
    assert_eq!((reader, independent), (0, 100));
    container.set_state(&set_s.unwrap(), 4);
    assert_eq!(container.read(Laws::Reader).0, 8);
    assert_eq!(container.read(Laws::Independent).0, 100);
    assert_eq!(INDEPENDENT_BUILDS.load(Ordering::SeqCst), 1);
}

#[test]
fn reads_are_stable() {
    let mut container = Container::new();
    assert_eq!(container.read(Laws::Reader), container.read(Laws::Reader));
    let by_ref = *container.read_ref(Laws::Reader);
    assert_eq!(by_ref, container.read(Laws::Reader));
}

#[test]
fn mutations_in_a_transaction_are_deferred() {
    let mut container = Container::new();
    let set_s = container.read(Laws::Stateful).1.unwrap();
    container.run_side_effect_txn(|c: &mut Container<Laws>| {
        c.set_state(&set_s, 1);
        c.set_state(&set_s, 2);
        assert_eq!(c.read(Laws::Stateful).0, 0);
        assert_eq!(c.read(Laws::Reader).0, 0);
    });
    assert_eq!(container.read(Laws::Stateful).0, 2);
    assert_eq!(container.read(Laws::Reader).0, 4);
}

#[test]
fn disposing_an_unknown_listener_changes_nothing() {
    let mut container = Container::new();
    container.read(Laws::Reader);
    container.dispose_listener(rearch::ListenerHandle { id: CapsuleId::new(9, 9) });
    assert_eq!(container.read_txn().try_read(&Laws::Reader).map(|d| d.0), Some(0));
}

#[test]
fn write_txn_reads_or_builds() {
    let mut txn: ContainerWriteTxn<Laws, (u32, Option<SideEffectStateMutater>), u32> =
        ContainerWriteTxn::new();
    assert_eq!(txn.try_read(&Laws::Reader), None);
    assert_eq!(txn.read_or_init(Laws::Reader).0, 0);
    assert_eq!(txn.try_read(&Laws::Stateful).map(|d| d.0), Some(0));
    assert_eq!(txn.downgrade().try_read(&Laws::Reader).map(|d| d.0), Some(0));
}
