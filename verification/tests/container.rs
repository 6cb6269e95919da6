use rearch::side_effects::{is_first_build, state};
use rearch::{Capsule, CapsuleHandle, Container, SideEffectRegistrar, SideEffectStateMutater};

#[derive(Clone, Copy, Debug, PartialEq, Eq)]
enum Counting {
    Count,
    CountPlusOne,
}

impl Capsule for Counting {
    type Data = u8;
    type State = ();
    type Key = ();

    fn capsule_type(&self) -> u64 {
        match self {
            Counting::Count => 0,
            Counting::CountPlusOne => 1,
        }
    }

    fn key(&self) {}

    fn spec_capsule_type(&self) -> u64 {
        self.capsule_type()
    }

    fn spec_key(&self) {}

    fn build(&self, handle: CapsuleHandle<'_, Self>) -> u8 {
        let CapsuleHandle { mut get, .. } = handle;
        match self {
            Counting::Count => 0,
            Counting::CountPlusOne => get.as_ref(Counting::Count) + 1,
        }
    }

    fn spec_eq(old: &Self::Data, new: &Self::Data) -> bool {
        <Self as Capsule>::eq(old, new)
    }

    fn eq(old: &u8, new: &u8) -> bool {
        old == new
    }
}

/// Check for some fundamental functionality with the classic count example
#[test]
fn basic_count() {
    let mut container = Container::new();
    let txn = container.read_txn();
    assert_eq!(
        (None, None),
        (txn.try_read(&Counting::Count), txn.try_read(&Counting::CountPlusOne))
    );
    assert_eq!(1, container.read(Counting::CountPlusOne));
    assert_eq!(0, container.read_txn().try_read(&Counting::Count).unwrap());

    let mut container = Container::new();
    assert_eq!((0, 1), container.read((Counting::Count, Counting::CountPlusOne)));
}

/// A capsule with one piece of state, and one that depends on it.
#[derive(Clone, Copy, Debug, PartialEq, Eq)]
enum Updates {
    Stateful,
    Dependent,
}

type StateAndSetter = (u8, Option<SideEffectStateMutater>);

impl Capsule for Updates {
    type Data = StateAndSetter;
    type State = u8;
    type Key = ();

    fn capsule_type(&self) -> u64 {
        match self {
            Updates::Stateful => 0,
            Updates::Dependent => 1,
        }
    }

    fn key(&self) {}

    fn spec_capsule_type(&self) -> u64 {
        self.capsule_type()
    }

    fn spec_key(&self) {}

    fn build(&self, handle: CapsuleHandle<'_, Self>) -> StateAndSetter {
        let CapsuleHandle { mut get, register } = handle;
        match self {
            Updates::Stateful => {
                let (state, set_state) = register.register(state(0));
                (*state, Some(set_state))
            }
            Updates::Dependent => (get.as_ref(Updates::Stateful).0 + 1, None),
        }
    }

    fn spec_eq(old: &Self::Data, new: &Self::Data) -> bool {
        <Self as Capsule>::eq(old, new)
    }

    fn eq(old: &StateAndSetter, new: &StateAndSetter) -> bool {
        old.0 == new.0
    }
}

#[test]
fn state_gets_updates() {
    let mut container = Container::new();

    let (state, set_state) = container.read(Updates::Stateful);
    assert_eq!(state, 0);

    container.set_state(&set_state.unwrap(), 1);
    let (state, set_state) = container.read(Updates::Stateful);
    assert_eq!(state, 1);

    let set_state = set_state.unwrap();
    container.set_state(&set_state, 2);
    container.set_state(&set_state, 3);
    let (state, _) = container.read(Updates::Stateful);
    assert_eq!(state, 3);
}

#[test]
fn dependent_gets_updates() {
    let mut container = Container::new();

    let ((state, set_state), (plus_one, _)) =
        container.read((Updates::Stateful, Updates::Dependent));
    assert_eq!(0, state);
    assert_eq!(1, plus_one);
    container.set_state(&set_state.unwrap(), 1);

    let ((state, _), (plus_one, _)) = container.read((Updates::Stateful, Updates::Dependent));
    assert_eq!(1, state);
    assert_eq!(2, plus_one);
}

/// One capsule with two pieces of state.
#[derive(Clone, Copy, Debug, PartialEq, Eq)]
struct Foo;

impl Capsule for Foo {
    type Data = (u8, u8, SideEffectStateMutater, SideEffectStateMutater);
    type State = (Option<u8>, Option<u8>);
    type Key = ();

    fn capsule_type(&self) -> u64 {
        0
    }

    fn key(&self) {}

    fn spec_capsule_type(&self) -> u64 {
        self.capsule_type()
    }

    fn spec_key(&self) {}

    fn build(&self, handle: CapsuleHandle<'_, Self>) -> Self::Data {
        let CapsuleHandle { register, .. } = handle;
        let ((s1, ss1), (s2, ss2)) = register.register((state(0), state(1)));
        (*s1, *s2, ss1, ss2)
    }

    fn spec_eq(old: &Self::Data, new: &Self::Data) -> bool {
        <Self as Capsule>::eq(old, new)
    }

    fn eq(_old: &Self::Data, _new: &Self::Data) -> bool {
        false
    }
}

#[test]
fn multiple_side_effect() {
    let mut container = Container::new();

    let (s1, s2, set1, set2) = container.read(Foo);
    assert_eq!(0, s1);
    assert_eq!(1, s2);

    container.run_side_effect_mutation(&set1, |st: &mut (Option<u8>, Option<u8>)| st.0 = Some(1));
    container.run_side_effect_mutation(&set2, |st: &mut (Option<u8>, Option<u8>)| st.1 = Some(2));
    let (s1, s2, _, _) = container.read(Foo);
    assert_eq!(1, s1);
    assert_eq!(2, s2);
}

/// A capsule that rebuilds on demand, and one that counts its own builds.
#[derive(Clone, Copy, Debug, PartialEq, Eq)]
enum Rebuilds {
    Rebuildable,
    BuildCounter,
}

#[derive(Default)]
struct RebuildsState {
    rebuild: Option<()>,
    first: Option<bool>,
}

impl Capsule for Rebuilds {
    type Data = (usize, Option<SideEffectStateMutater>);
    type State = RebuildsState;
    type Key = ();

    fn capsule_type(&self) -> u64 {
        match self {
            Rebuilds::Rebuildable => 0,
            Rebuilds::BuildCounter => 1,
        }
    }

    fn key(&self) {}

    fn spec_capsule_type(&self) -> u64 {
        self.capsule_type()
    }

    fn spec_key(&self) {}

    fn build(&self, handle: CapsuleHandle<'_, Self>) -> Self::Data {
        let CapsuleHandle { mut get, register } = handle;
        let id = register.id;
        let (st, _, _) = register.raw(RebuildsState::default());
        match self {
            Rebuilds::Rebuildable => {
                let rebuild =
                    SideEffectRegistrar::new(&mut st.rebuild, id).register(rearch::side_effects::rebuilder());
                (0, Some(rebuild))
            }
            Rebuilds::BuildCounter => {
                let _ = get.as_ref(Rebuilds::Rebuildable);
                let is_first_build =
                    SideEffectRegistrar::new(&mut st.first, id).register(is_first_build());
                if is_first_build {
                    (1, None)
                } else {
                    (get.as_ref(Rebuilds::BuildCounter).0 + 1, None)
                }
            }
        }
    }

    fn spec_eq(old: &Self::Data, new: &Self::Data) -> bool {
        <Self as Capsule>::eq(old, new)
    }

    fn eq(_old: &Self::Data, _new: &Self::Data) -> bool {
        false
    }
}

#[test]
fn get_and_register() {
    let mut container = Container::new();
    assert_eq!(container.read(Rebuilds::BuildCounter).0, 1);
    let rebuild = container.read(Rebuilds::Rebuildable).1.unwrap();
    container.rebuild(&rebuild);
    assert_eq!(container.read(Rebuilds::BuildCounter).0, 2);
    container.rebuild(&rebuild);
    assert_eq!(container.read(Rebuilds::BuildCounter).0, 3);
}

// We use a more sophisticated graph here for a more thorough test of all functionality
//
// -> A -> B -> C -> D
//      \      / \
//  H -> E -> F -> G
//
// C, D, E, G, H are idempotent. A, B, F are not.
#[derive(Clone, Copy, Debug, PartialEq, Eq)]
enum Graph {
    StatefulA,
    A,
    B,
    C,
    D,
    E,
    F,
    G,
    H,
}

impl Capsule for Graph {
    type Data = (u8, Option<SideEffectStateMutater>);
    type State = u8;
    type Key = ();

    fn capsule_type(&self) -> u64 {
        match self {
            Graph::StatefulA => 0,
            Graph::A => 1,
            Graph::B => 2,
            Graph::C => 3,
            Graph::D => 4,
            Graph::E => 5,
            Graph::F => 6,
            Graph::G => 7,
            Graph::H => 8,
        }
    }

    fn key(&self) {}

    fn spec_capsule_type(&self) -> u64 {
        self.capsule_type()
    }

    fn spec_key(&self) {}

    fn build(&self, handle: CapsuleHandle<'_, Self>) -> Self::Data {
        let CapsuleHandle { mut get, register } = handle;
        match self {
            Graph::StatefulA => {
                let (state, set_state) = register.register(state(0));
                (*state, Some(set_state))
            }
            Graph::A => (get.as_ref(Graph::StatefulA).0, None),
            Graph::B => {
                register.register(());
                (get.as_ref(Graph::A).0 + 1, None)
            }
            Graph::C => (get.as_ref(Graph::B).0 + get.as_ref(Graph::F).0, None),
            Graph::D => (get.as_ref(Graph::C).0, None),
            Graph::E => (get.as_ref(Graph::A).0 + get.as_ref(Graph::H).0, None),
            Graph::F => {
                register.register(());
                (get.as_ref(Graph::E).0, None)
            }
            Graph::G => (get.as_ref(Graph::C).0 + get.as_ref(Graph::F).0, None),
            Graph::H => (1, None),
        }
    }

    fn spec_eq(old: &Self::Data, new: &Self::Data) -> bool {
        <Self as Capsule>::eq(old, new)
    }

    fn eq(_old: &Self::Data, _new: &Self::Data) -> bool {
        false
    }
}

fn graph_value(container: &Container<Graph>, capsule: Graph) -> Option<u8> {
    container.read_txn().try_read(&capsule).map(|(value, _)| value)
}

#[test]
fn complex_dependency_graph() {
    let mut container = Container::new();

    assert!(container.read_txn().try_read(&Graph::StatefulA).is_none());
    assert_eq!(graph_value(&container, Graph::A), None);
    assert_eq!(graph_value(&container, Graph::B), None);
    assert_eq!(graph_value(&container, Graph::C), None);
    assert_eq!(graph_value(&container, Graph::D), None);
    assert_eq!(graph_value(&container, Graph::E), None);
    assert_eq!(graph_value(&container, Graph::F), None);
    assert_eq!(graph_value(&container, Graph::G), None);
    assert_eq!(graph_value(&container, Graph::H), None);

    container.read((Graph::D, Graph::G));

    assert!(container.read_txn().try_read(&Graph::StatefulA).is_some());
    assert_eq!(graph_value(&container, Graph::A).unwrap(), 0);
    assert_eq!(graph_value(&container, Graph::B).unwrap(), 1);
    assert_eq!(graph_value(&container, Graph::C).unwrap(), 2);
    assert_eq!(graph_value(&container, Graph::D).unwrap(), 2);
    assert_eq!(graph_value(&container, Graph::E).unwrap(), 1);
    assert_eq!(graph_value(&container, Graph::F).unwrap(), 1);
    assert_eq!(graph_value(&container, Graph::G).unwrap(), 3);
    assert_eq!(graph_value(&container, Graph::H).unwrap(), 1);

    let set_a = container.read(Graph::StatefulA).1.unwrap();
    container.set_state(&set_a, 10);

    assert!(container.read_txn().try_read(&Graph::StatefulA).is_some());
    assert_eq!(graph_value(&container, Graph::A).unwrap(), 10);
    assert_eq!(graph_value(&container, Graph::B).unwrap(), 11);
    assert_eq!(graph_value(&container, Graph::C), None);
    assert_eq!(graph_value(&container, Graph::D), None);
    assert_eq!(graph_value(&container, Graph::E).unwrap(), 11);
    assert_eq!(graph_value(&container, Graph::F).unwrap(), 11);
    assert_eq!(graph_value(&container, Graph::G), None);
    assert_eq!(graph_value(&container, Graph::H).unwrap(), 1);
}

/// The fibonacci numbers as dynamic capsules, keyed by their index.
#[derive(Clone, Copy, Debug, PartialEq, Eq)]
struct FibCapsule(u8);

impl Capsule for FibCapsule {
    type Data = u128;
    type State = ();
    type Key = u8;

    fn capsule_type(&self) -> u64 {
        0
    }

    fn key(&self) -> u8 {
        self.0
    }

    fn spec_capsule_type(&self) -> u64 {
        self.capsule_type()
    }

    fn spec_key(&self) -> u8 {
        self.0
    }

    fn build(&self, handle: CapsuleHandle<'_, Self>) -> u128 {
        let CapsuleHandle { mut get, .. } = handle;
        let FibCapsule(n) = self;
        match n {
            0 => 0,
            1 => 1,
            n => *get.as_ref(FibCapsule(n - 1)) + get.as_ref(FibCapsule(n - 2)),
        }
    }

    fn spec_eq(old: &Self::Data, new: &Self::Data) -> bool {
        <Self as Capsule>::eq(old, new)
    }

    fn eq(old: &u128, new: &u128) -> bool {
        old == new
    }
}

#[test]
fn fib_dynamic_capsules() {
    let mut container = Container::new();
    assert_eq!(container.read(FibCapsule(100)), 354_224_848_179_261_915_075);
}

/// Two kinds of dynamic capsules whose keys coincide.
#[derive(Clone, Copy, Debug, PartialEq, Eq)]
enum Isolated {
    A(u8),
    B(u8),
}

impl Capsule for Isolated {
    type Data = u8;
    type State = ();
    type Key = u8;

    fn capsule_type(&self) -> u64 {
        match self {
            Isolated::A(_) => 0,
            Isolated::B(_) => 1,
        }
    }

    fn key(&self) -> u8 {
        match self {
            Isolated::A(k) | Isolated::B(k) => *k,
        }
    }

    fn spec_capsule_type(&self) -> u64 {
        self.capsule_type()
    }

    fn spec_key(&self) -> u8 {
        self.key()
    }

    fn build(&self, _handle: CapsuleHandle<'_, Self>) -> u8 {
        match self {
            Isolated::A(n) => *n,
            Isolated::B(n) => n + 1,
        }
    }

    fn spec_eq(old: &Self::Data, new: &Self::Data) -> bool {
        <Self as Capsule>::eq(old, new)
    }

    fn eq(old: &u8, new: &u8) -> bool {
        old == new
    }
}

#[test]
fn dynamic_capsules_remain_isolated() {
    // A and B will have the same bytes in their keys, but should remain separate
    let mut container = Container::new();
    assert_eq!(container.read(Isolated::A(0)), 0);
    assert_eq!(container.read(Isolated::B(0)), 1);
}

/// Dynamic cells that read a static piece of state, and a sink that reads two cells.
#[derive(Clone, Copy, Debug, PartialEq, Eq)]
enum Mixed {
    Stateful,
    Cell(u8),
    Sink,
}

impl Capsule for Mixed {
    type Data = (u8, u8, Option<SideEffectStateMutater>);
    type State = u8;
    type Key = u8;

    fn capsule_type(&self) -> u64 {
        match self {
            Mixed::Stateful => 0,
            Mixed::Cell(_) => 1,
            Mixed::Sink => 2,
        }
    }

    fn key(&self) -> u8 {
        match self {
            Mixed::Cell(k) => *k,
            _ => 0,
        }
    }

    fn spec_capsule_type(&self) -> u64 {
        self.capsule_type()
    }

    fn spec_key(&self) -> u8 {
        self.key()
    }

    fn build(&self, handle: CapsuleHandle<'_, Self>) -> Self::Data {
        let CapsuleHandle { mut get, register } = handle;
        match self {
            Mixed::Stateful => {
                let (state, set_state) = register.register(state(0));
                (*state, 0, Some(set_state))
            }
            Mixed::Cell(n) => (n + get.as_ref(Mixed::Stateful).0, 0, None),
            Mixed::Sink => (get.as_ref(Mixed::Cell(0)).0, get.as_ref(Mixed::Cell(1)).0, None),
        }
    }

    fn spec_eq(old: &Self::Data, new: &Self::Data) -> bool {
        <Self as Capsule>::eq(old, new)
    }

    fn eq(old: &Self::Data, new: &Self::Data) -> bool {
        old.0 == new.0 && old.1 == new.1
    }
}

#[test]
fn dynamic_and_static_capsules() {
    let mut container = Container::new();
    let (first, second, _) = container.read(Mixed::Sink);
    assert_eq!((first, second), (0, 1));
    let set_state = container.read(Mixed::Stateful).2.unwrap();
    container.set_state(&set_state, 1);
    let (first, second, _) = container.read(Mixed::Sink);
    assert_eq!((first, second), (1, 2));
}

/// A piece of state and a listener that records every value it sees.
#[derive(Clone, Debug)]
enum Listening {
    Stateful,
    Listener(std::sync::Arc<std::sync::Mutex<Vec<u8>>>),
}

impl Capsule for Listening {
    type Data = (u8, Option<SideEffectStateMutater>);
    type State = u8;
    type Key = ();

    fn capsule_type(&self) -> u64 {
        match self {
            Listening::Stateful => 0,
            Listening::Listener(_) => 1,
        }
    }

    fn key(&self) {}

    fn spec_capsule_type(&self) -> u64 {
        self.capsule_type()
    }

    fn spec_key(&self) {}

    fn build(&self, handle: CapsuleHandle<'_, Self>) -> Self::Data {
        let CapsuleHandle { mut get, register } = handle;
        match self {
            Listening::Stateful => {
                let (state, set_state) = register.register(state(0));
                (*state, Some(set_state))
            }
            Listening::Listener(states) => {
                register.register(rearch::effects::as_listener());
                let seen = get.as_ref(Listening::Stateful).0;
                states.lock().unwrap().push(seen);
                (0, None)
            }
        }
    }

    fn spec_eq(old: &Self::Data, new: &Self::Data) -> bool {
        <Self as Capsule>::eq(old, new)
    }

    fn eq(old: &Self::Data, new: &Self::Data) -> bool {
        old.0 == new.0
    }
}

#[test]
fn listener_gets_updates() {
    let states = std::sync::Arc::new(std::sync::Mutex::new(Vec::new()));
    let mut container = Container::new();
    let set_state = container.read(Listening::Stateful).1.unwrap();

    container.set_state(&set_state, 1);
    let handle = container.listen(Listening::Listener(std::sync::Arc::clone(&states)));
    container.set_state(&set_state, 2);
    container.set_state(&set_state, 3);

    container.dispose_listener(handle);
    container.set_state(&set_state, 4);

    container.set_state(&set_state, 5);
    let handle = container.listen(Listening::Listener(std::sync::Arc::clone(&states)));
    container.set_state(&set_state, 6);
    container.set_state(&set_state, 7);

    container.dispose_listener(handle);
    container.set_state(&set_state, 8);

    let states = states.lock().unwrap();
    assert_eq!(*states, vec![1, 2, 3, 5, 6, 7]);
}

/// A capsule that rebuilds on demand, and a listener that records whether each of its
/// builds is the first one.
#[derive(Clone, Debug)]
enum FirstBuilds {
    Rebuildable,
    Listener(std::sync::Arc<std::sync::Mutex<Vec<bool>>>),
    TwiceFirst,
}

#[derive(Default)]
struct FirstBuildsState {
    rebuild: Option<()>,
    first: Option<bool>,
    both: Option<(Option<bool>, Option<bool>)>,
}

impl Capsule for FirstBuilds {
    type Data = Option<SideEffectStateMutater>;
    type State = FirstBuildsState;
    type Key = ();

    fn capsule_type(&self) -> u64 {
        match self {
            FirstBuilds::Rebuildable => 0,
            FirstBuilds::Listener(_) => 1,
            FirstBuilds::TwiceFirst => 2,
        }
    }

    fn key(&self) {}

    fn spec_capsule_type(&self) -> u64 {
        self.capsule_type()
    }

    fn spec_key(&self) {}

    fn build(&self, handle: CapsuleHandle<'_, Self>) -> Self::Data {
        let CapsuleHandle { mut get, register } = handle;
        let id = register.id;
        let (st, _, _) = register.raw(FirstBuildsState::default());
        match self {
            FirstBuilds::Rebuildable => Some(
                SideEffectRegistrar::new(&mut st.rebuild, id)
                    .register(rearch::side_effects::rebuilder()),
            ),
            FirstBuilds::Listener(states) => {
                let _ = get.as_ref(FirstBuilds::Rebuildable);
                let first = SideEffectRegistrar::new(&mut st.first, id).register(is_first_build());
                states.lock().unwrap().push(first);
                None
            }
            FirstBuilds::TwiceFirst => {
                let (b1, b2) = SideEffectRegistrar::new(&mut st.both, id)
                    .register((is_first_build(), is_first_build()));
                assert!(b1);
                assert!(b2);
                None
            }
        }
    }

    fn spec_eq(old: &Self::Data, new: &Self::Data) -> bool {
        <Self as Capsule>::eq(old, new)
    }

    fn eq(_old: &Self::Data, _new: &Self::Data) -> bool {
        false
    }
}

#[test]
fn listener_side_effects_update() {
    let states = std::sync::Arc::new(std::sync::Mutex::new(Vec::new()));
    let mut container = Container::new();
    let handle = container.listen(FirstBuilds::Listener(std::sync::Arc::clone(&states)));

    let rebuild = container.read(FirstBuilds::Rebuildable).unwrap();
    container.rebuild(&rebuild);

    assert_eq!(*states.lock().unwrap(), vec![true, false]);

    container.dispose_listener(handle);
}

#[test]
fn listener_with_multiple_effects() {
    let mut container = Container::new();
    let _ = container.listen(FirstBuilds::TwiceFirst);
}

static BUILDS: [std::sync::atomic::AtomicU32; 6] = [
    std::sync::atomic::AtomicU32::new(0),
    std::sync::atomic::AtomicU32::new(0),
    std::sync::atomic::AtomicU32::new(0),
    std::sync::atomic::AtomicU32::new(0),
    std::sync::atomic::AtomicU32::new(0),
    std::sync::atomic::AtomicU32::new(0),
];

/// Capsules that count their builds, to check that equal data stops a rebuild from spreading.
#[derive(Clone, Copy, Debug, PartialEq, Eq)]
enum Skipping {
    Stateful,
    UnchangingIdempotentDep,
    UnchangingWatcher,
    ChangingIdempotentDep,
    ChangingWatcher,
    ImpureSink,
}

fn build_count(capsule: Skipping) -> u32 {
    BUILDS[capsule.capsule_type() as usize].load(std::sync::atomic::Ordering::SeqCst)
}

impl Capsule for Skipping {
    type Data = (u32, Option<SideEffectStateMutater>);
    type State = u32;
    type Key = ();

    fn capsule_type(&self) -> u64 {
        match self {
            Skipping::Stateful => 0,
            Skipping::UnchangingIdempotentDep => 1,
            Skipping::UnchangingWatcher => 2,
            Skipping::ChangingIdempotentDep => 3,
            Skipping::ChangingWatcher => 4,
            Skipping::ImpureSink => 5,
        }
    }

    fn key(&self) {}

    fn spec_capsule_type(&self) -> u64 {
        self.capsule_type()
    }

    fn spec_key(&self) {}

    fn build(&self, handle: CapsuleHandle<'_, Self>) -> Self::Data {
        BUILDS[self.capsule_type() as usize].fetch_add(1, std::sync::atomic::Ordering::SeqCst);
        let CapsuleHandle { mut get, register } = handle;
        match self {
            Skipping::Stateful => {
                let (state, set_state) = register.register(state(0));
                (*state, Some(set_state))
            }
            Skipping::UnchangingIdempotentDep => {
                let _ = get.as_ref(Skipping::Stateful);
                (0, None)
            }
            Skipping::UnchangingWatcher => (get.as_ref(Skipping::UnchangingIdempotentDep).0, None),
            Skipping::ChangingIdempotentDep => (get.as_ref(Skipping::Stateful).0, None),
            Skipping::ChangingWatcher => (get.as_ref(Skipping::ChangingIdempotentDep).0, None),
            Skipping::ImpureSink => {
                register.register(rearch::effects::as_listener());
                let _ = get.as_ref(Skipping::ChangingWatcher);
                let _ = get.as_ref(Skipping::UnchangingWatcher);
                (0, None)
            }
        }
    }

    fn spec_eq(old: &Self::Data, new: &Self::Data) -> bool {
        <Self as Capsule>::eq(old, new)
    }

    fn eq(old: &Self::Data, new: &Self::Data) -> bool {
        old.1.is_none() && new.1.is_none() && old.0 == new.0
    }
}

fn assert_build_counts(expected: [u32; 5]) {
    assert_eq!(build_count(Skipping::Stateful), expected[0]);
    assert_eq!(build_count(Skipping::UnchangingIdempotentDep), expected[1]);
    assert_eq!(build_count(Skipping::ChangingIdempotentDep), expected[2]);
    assert_eq!(build_count(Skipping::UnchangingWatcher), expected[3]);
    assert_eq!(build_count(Skipping::ChangingWatcher), expected[4]);
}

#[test]
fn eq_check_skips_unneeded_rebuilds() {
    let mut container = Container::new();

    assert_eq!(container.read(Skipping::UnchangingWatcher).0, 0);
    assert_eq!(container.read(Skipping::ChangingWatcher).0, 0);
    assert_build_counts([1, 1, 1, 1, 1]);

    let set_state = container.read(Skipping::Stateful).1.unwrap();
    container.set_state(&set_state, 0);
    assert_build_counts([2, 1, 1, 1, 1]);

    assert_eq!(container.read(Skipping::UnchangingWatcher).0, 0);
    assert_eq!(container.read(Skipping::ChangingWatcher).0, 0);
    assert_build_counts([2, 2, 2, 2, 2]);

    container.set_state(&set_state, 1);
    assert_build_counts([3, 2, 2, 2, 2]);

    assert_eq!(container.read(Skipping::UnchangingWatcher).0, 0);
    assert_eq!(container.read(Skipping::ChangingWatcher).0, 1);
    assert_build_counts([3, 3, 3, 3, 3]);

    // Disable the idempotent gc
    container.read(Skipping::ImpureSink);

    container.set_state(&set_state, 2);
    assert_build_counts([4, 4, 4, 3, 4]);

    assert_eq!(container.read(Skipping::UnchangingWatcher).0, 0);
    assert_eq!(container.read(Skipping::ChangingWatcher).0, 2);
    assert_build_counts([4, 4, 4, 3, 4]);
}

#[test]
fn container_send_sync() {
    fn assert_send_sync<T: Send + Sync>() {}
    assert_send_sync::<Container<Counting>>();
    assert_send_sync::<Container<Graph>>();
}
