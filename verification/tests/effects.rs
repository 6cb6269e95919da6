use std::sync::atomic::{AtomicU8, Ordering};

use rearch::effects::{
    as_listener, is_first_build, raw, reducer, set_inner, state, value, Cloned, Dispatcher,
    LazyCloned, LazyMutRef, LazyRef, MutRef, Ref,
};
use rearch::{Capsule, CapsuleHandle, Container, SideEffectRegistrar, SideEffectStateMutater};

fn assert_type<Expected>(_actual: Expected) {}

struct Transformers;

impl Capsule for Transformers {
    type Data = ();
    type State = (Option<Ref<u8>>, Option<MutRef<u8>>, Option<Cloned<u8>>);
    type Key = ();

    fn capsule_type(&self) -> u64 {
        0
    }

    fn key(&self) {}

    fn spec_capsule_type(&self) -> u64 {
        0
    }

    fn spec_key(&self) {}

    fn build(&self, handle: CapsuleHandle<'_, Self>) {
        let CapsuleHandle { register, .. } = handle;
        let ((r, _, _), (mr, _, _), (c, _, _)) = register.register((
            raw::<Ref<u8>>(123),
            raw::<MutRef<u8>>(123),
            raw::<Cloned<u8>>(123),
        ));
        assert_type::<&u8>(r);
        assert_type::<&mut u8>(mr);
        assert_type::<u8>(c);
    }

    fn spec_eq(old: &Self::Data, new: &Self::Data) -> bool {
        <Self as Capsule>::eq(old, new)
    }

    fn eq(_old: &(), _new: &()) -> bool {
        false
    }
}

#[test]
fn transformer_output_types() {
    Container::new().read(Transformers);
}

type Init = fn() -> u8;

fn init_123() -> u8 {
    123
}

struct LazyTransformers;

impl Capsule for LazyTransformers {
    type Data = ();
    type State = (
        Option<LazyRef<u8, Init>>,
        Option<LazyMutRef<u8, Init>>,
        Option<LazyCloned<u8, Init>>,
    );
    type Key = ();

    fn capsule_type(&self) -> u64 {
        0
    }

    fn key(&self) {}

    fn spec_capsule_type(&self) -> u64 {
        0
    }

    fn spec_key(&self) {}

    fn build(&self, handle: CapsuleHandle<'_, Self>) {
        let CapsuleHandle { register, .. } = handle;
        let ((r, _, _), (mr, _, _), (c, _, _)) = register.register((
            raw::<LazyRef<u8, Init>>(init_123),
            raw::<LazyMutRef<u8, Init>>(init_123),
            raw::<LazyCloned<u8, Init>>(init_123),
        ));
        assert_type::<&u8>(r);
        assert_type::<&mut u8>(mr);
        assert_type::<u8>(c);
    }

    fn spec_eq(old: &Self::Data, new: &Self::Data) -> bool {
        <Self as Capsule>::eq(old, new)
    }

    fn eq(_old: &(), _new: &()) -> bool {
        false
    }
}

#[test]
fn lazy_transformer_output_types() {
    Container::new().read(LazyTransformers);
}

struct LazyTransformerCapsule;

impl Capsule for LazyTransformerCapsule {
    type Data = u8;
    type State = LazyCloned<u8, Init>;
    type Key = ();

    fn capsule_type(&self) -> u64 {
        0
    }

    fn key(&self) {}

    fn spec_capsule_type(&self) -> u64 {
        0
    }

    fn spec_key(&self) {}

    fn build(&self, handle: CapsuleHandle<'_, Self>) -> u8 {
        let CapsuleHandle { register, .. } = handle;
        register.register(value::<LazyCloned<u8, Init>>(init_123))
    }

    fn spec_eq(old: &Self::Data, new: &Self::Data) -> bool {
        <Self as Capsule>::eq(old, new)
    }

    fn eq(old: &u8, new: &u8) -> bool {
        old == new
    }
}

#[test]
fn lazy_transformer_invokes_init_fn() {
    assert_eq!(Container::new().read(LazyTransformerCapsule), 123);
}

static BUILD_COUNT: AtomicU8 = AtomicU8::new(0);

#[derive(Clone, Copy, Debug, PartialEq, Eq)]
enum Listening {
    Rebuildable,
    Listener,
}

impl Capsule for Listening {
    type Data = Option<SideEffectStateMutater>;
    type State = ();
    type Key = ();

    fn capsule_type(&self) -> u64 {
        match self {
            Listening::Rebuildable => 0,
            Listening::Listener => 1,
        }
    }

    fn key(&self) {}

    fn spec_capsule_type(&self) -> u64 {
        self.capsule_type()
    }

    fn spec_key(&self) {}

    fn build(&self, handle: CapsuleHandle<'_, Self>) -> Self::Data {
        let CapsuleHandle { mut get, register } = handle;
        match self {
            Listening::Rebuildable => {
                let ((), rebuild, _) = register.raw(());
                Some(rebuild)
            }
            Listening::Listener => {
                register.register(as_listener());
                BUILD_COUNT.fetch_add(1, Ordering::SeqCst);
                let _ = get.as_ref(Listening::Rebuildable);
                None
            }
        }
    }

    fn spec_eq(old: &Self::Data, new: &Self::Data) -> bool {
        <Self as Capsule>::eq(old, new)
    }

    fn eq(_old: &Self::Data, _new: &Self::Data) -> bool {
        false
    }
}

#[test]
fn as_listener_gets_changes() {
    let mut container = Container::new();
    container.read(Listening::Listener);
    let rebuild = container.read(Listening::Rebuildable).unwrap();
    container.rebuild(&rebuild);
    assert_eq!(BUILD_COUNT.fetch_add(1, Ordering::SeqCst), 2);
}

struct Stateful;

impl Capsule for Stateful {
    type Data = (u8, SideEffectStateMutater);
    type State = Cloned<u8>;
    type Key = ();

    fn capsule_type(&self) -> u64 {
        0
    }

    fn key(&self) {}

    fn spec_capsule_type(&self) -> u64 {
        0
    }

    fn spec_key(&self) {}

    fn build(&self, handle: CapsuleHandle<'_, Self>) -> Self::Data {
        let CapsuleHandle { register, .. } = handle;
        register.register(state::<Cloned<u8>>(0))
    }

    fn spec_eq(old: &Self::Data, new: &Self::Data) -> bool {
        <Self as Capsule>::eq(old, new)
    }

    fn eq(_old: &Self::Data, _new: &Self::Data) -> bool {
        false
    }
}

#[test]
fn state_can_change() {
    let mut container = Container::new();
    assert_eq!(container.read(Stateful).0, 0);
    let set_state = container.read(Stateful).1;
    set_inner(&mut container, &set_state, 1);
    assert_eq!(container.read(Stateful).0, 1);
}

#[derive(Clone, Copy, Debug, PartialEq, Eq)]
enum Values {
    Rebuildable,
    BuildCount,
}

#[derive(Default)]
struct ValuesState {
    rebuild: Option<()>,
    build_count: Option<MutRef<u8>>,
}

impl Capsule for Values {
    type Data = (u8, Option<SideEffectStateMutater>);
    type State = ValuesState;
    type Key = ();

    fn capsule_type(&self) -> u64 {
        match self {
            Values::Rebuildable => 0,
            Values::BuildCount => 1,
        }
    }

    fn key(&self) {}

    fn spec_capsule_type(&self) -> u64 {
        self.capsule_type()
    }

    fn spec_key(&self) {}

    fn build(&self, handle: CapsuleHandle<'_, Self>) -> Self::Data {
        let CapsuleHandle { mut get, register } = handle;
        let id = register.id;
        let (st, _, _) = register.raw(ValuesState::default());
        match self {
            Values::Rebuildable => {
                let ((), rebuild, _) = SideEffectRegistrar::new(&mut st.rebuild, id).raw(());
                (0, Some(rebuild))
            }
            Values::BuildCount => {
                let _ = get.as_ref(Values::Rebuildable);
                let build_count = SideEffectRegistrar::new(&mut st.build_count, id)
                    .register(value::<MutRef<u8>>(0));
                *build_count += 1;
                (*build_count, None)
            }
        }
    }

    fn spec_eq(old: &Self::Data, new: &Self::Data) -> bool {
        <Self as Capsule>::eq(old, new)
    }

    fn eq(_old: &Self::Data, _new: &Self::Data) -> bool {
        false
    }
}

#[test]
fn value_can_change() {
    let mut container = Container::new();
    assert_eq!(container.read(Values::BuildCount).0, 1);
    let rebuild = container.read(Values::Rebuildable).1.unwrap();
    container.rebuild(&rebuild);
    assert_eq!(container.read(Values::BuildCount).0, 2);
    container.rebuild(&rebuild);
    assert_eq!(container.read(Values::BuildCount).0, 3);
}

struct IsFirstBuildCapsule;

impl Capsule for IsFirstBuildCapsule {
    type Data = (bool, SideEffectStateMutater);
    type State = (Option<MutRef<bool>>, Option<MutRef<()>>);
    type Key = ();

    fn capsule_type(&self) -> u64 {
        0
    }

    fn key(&self) {}

    fn spec_capsule_type(&self) -> u64 {
        0
    }

    fn spec_key(&self) {}

    fn build(&self, handle: CapsuleHandle<'_, Self>) -> Self::Data {
        let CapsuleHandle { register, .. } = handle;
        let (is_first_build, (_, rebuild, _)) =
            register.register((is_first_build(), raw::<MutRef<()>>(())));
        (is_first_build, rebuild)
    }

    fn spec_eq(old: &Self::Data, new: &Self::Data) -> bool {
        <Self as Capsule>::eq(old, new)
    }

    fn eq(_old: &Self::Data, _new: &Self::Data) -> bool {
        false
    }
}

#[test]
fn is_first_build_changes_state() {
    let mut container = Container::new();
    assert!(container.read(IsFirstBuildCapsule).0);
    let rebuild = container.read(IsFirstBuildCapsule).1;
    container.rebuild(&rebuild);
    assert!(!container.read(IsFirstBuildCapsule).0);
    container.rebuild(&rebuild);
    assert!(!container.read(IsFirstBuildCapsule).0);
}

enum CountAction {
    Increment,
    Decrement,
}

type CountReducer = fn(&u8, CountAction) -> u8;

fn count_reducer(state: &u8, action: CountAction) -> u8 {
    match action {
        CountAction::Increment => state + 1,
        CountAction::Decrement => state - 1,
    }
}

struct CountManager;

impl Capsule for CountManager {
    type Data = (u8, Dispatcher<CountReducer>);
    type State = Cloned<u8>;
    type Key = ();

    fn capsule_type(&self) -> u64 {
        0
    }

    fn key(&self) {}

    fn spec_capsule_type(&self) -> u64 {
        0
    }

    fn spec_key(&self) {}

    fn build(&self, handle: CapsuleHandle<'_, Self>) -> Self::Data {
        let CapsuleHandle { register, .. } = handle;
        register.register(reducer::<Cloned<u8>, CountReducer>(0, count_reducer))
    }

    fn spec_eq(old: &Self::Data, new: &Self::Data) -> bool {
        <Self as Capsule>::eq(old, new)
    }

    fn eq(_old: &Self::Data, _new: &Self::Data) -> bool {
        false
    }
}

#[test]
fn reducer_can_change() {
    let mut container = Container::new();
    assert_eq!(container.read(CountManager).0, 0);
    let dispatch = container.read(CountManager).1;
    dispatch.dispatch(&mut container, CountAction::Increment);
    assert_eq!(container.read(CountManager).0, 1);
    dispatch.dispatch(&mut container, CountAction::Decrement);
    assert_eq!(container.read(CountManager).0, 0);
}

static LAZY_INITS: AtomicU8 = AtomicU8::new(0);

fn counted_init() -> u8 {
    LAZY_INITS.fetch_add(1, Ordering::SeqCst);
    7
}

/// A capsule whose lazily initialized state counts how often its initializer ran.
struct LazyOnce;

impl Capsule for LazyOnce {
    type Data = (u8, SideEffectStateMutater);
    type State = LazyCloned<u8, Init>;
    type Key = ();

    fn capsule_type(&self) -> u64 {
        0
    }

    fn key(&self) {}

    fn spec_capsule_type(&self) -> u64 {
        0
    }

    fn spec_key(&self) {}

    fn build(&self, handle: CapsuleHandle<'_, Self>) -> Self::Data {
        let CapsuleHandle { register, .. } = handle;
        register.register(state::<LazyCloned<u8, Init>>(counted_init))
    }

    fn spec_eq(old: &Self::Data, new: &Self::Data) -> bool {
        <Self as Capsule>::eq(old, new)
    }

    fn eq(_old: &Self::Data, _new: &Self::Data) -> bool {
        false
    }
}

#[test]
fn lazy_transformer_initializes_on_the_first_build_only() {
    let mut container = Container::new();
    let (value, rebuild) = container.read(LazyOnce);
    assert_eq!(value, 7);
    container.rebuild(&rebuild);
    container.rebuild(&rebuild);
    assert_eq!(container.read(LazyOnce).0, 7);
    assert_eq!(LAZY_INITS.load(Ordering::SeqCst), 1);
}

/// A capsule that registers four side effects together.
struct FourEffects;

impl Capsule for FourEffects {
    type Data = (u8, u8, u8, u8);
    type State = (Option<Cloned<u8>>, Option<Cloned<u8>>, Option<Cloned<u8>>, Option<Cloned<u8>>);
    type Key = ();

    fn capsule_type(&self) -> u64 {
        0
    }

    fn key(&self) {}

    fn spec_capsule_type(&self) -> u64 {
        0
    }

    fn spec_key(&self) {}

    fn build(&self, handle: CapsuleHandle<'_, Self>) -> Self::Data {
        let CapsuleHandle { register, .. } = handle;
        register.register((
            value::<Cloned<u8>>(1),
            value::<Cloned<u8>>(2),
            value::<Cloned<u8>>(3),
            value::<Cloned<u8>>(4),
        ))
    }

    fn spec_eq(old: &Self::Data, new: &Self::Data) -> bool {
        <Self as Capsule>::eq(old, new)
    }

    fn eq(old: &Self::Data, new: &Self::Data) -> bool {
        old == new
    }
}

#[test]
fn four_side_effects_keep_their_own_states() {
    assert_eq!(Container::new().read(FourEffects), (1, 2, 3, 4));
}
