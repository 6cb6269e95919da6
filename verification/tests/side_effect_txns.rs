use rearch::side_effects::{is_first_build, state};
use rearch::{Capsule, CapsuleHandle, Container, SideEffectRegistrar, SideEffectStateMutater};

#[derive(Clone, Copy, Debug, PartialEq, Eq)]
enum Txns {
    TwoSideEffects,
    Another,
    BatchAllUpdatesAction,
    BuildCounter,
}

#[derive(Default)]
struct TxnState {
    pair: Option<(Option<u8>, Option<u8>)>,
    single: Option<u8>,
    first: Option<bool>,
}

#[derive(Clone, Copy, Debug, PartialEq, Eq)]
enum TxnData {
    Pair(u8, SideEffectStateMutater, u8, SideEffectStateMutater),
    Single(u8, SideEffectStateMutater),
    Batch(SideEffectStateMutater, SideEffectStateMutater, SideEffectStateMutater),
    Count(u8),
}

impl Capsule for Txns {
    type Data = TxnData;
    type State = TxnState;
    type Key = ();

    fn capsule_type(&self) -> u64 {
        match self {
            Txns::TwoSideEffects => 0,
            Txns::Another => 1,
            Txns::BatchAllUpdatesAction => 2,
            Txns::BuildCounter => 3,
        }
    }

    fn key(&self) {}

    fn spec_capsule_type(&self) -> u64 {
        self.capsule_type()
    }

    fn spec_key(&self) {}

    fn build(&self, handle: CapsuleHandle<'_, Self>) -> TxnData {
        let CapsuleHandle { mut get, register } = handle;
        let id = register.id;
        match self {
            Txns::TwoSideEffects => {
                let (st, _, _) = register.raw(TxnState::default());
                let ((s1, ss1), (s2, ss2)) =
                    SideEffectRegistrar::new(&mut st.pair, id).register((state(0), state(1)));
                TxnData::Pair(*s1, ss1, *s2, ss2)
            }
            Txns::Another => {
                let (st, _, _) = register.raw(TxnState::default());
                let (s3, ss3) = SideEffectRegistrar::new(&mut st.single, id).register(state(2));
                TxnData::Single(*s3, ss3)
            }
            Txns::BatchAllUpdatesAction => {
                let (ss1, ss2) = match get.as_ref(Txns::TwoSideEffects) {
                    TxnData::Pair(_, ss1, _, ss2) => (*ss1, *ss2),
                    _ => unreachable!(),
                };
                let ss3 = match get.as_ref(Txns::Another) {
                    TxnData::Single(_, ss3) => *ss3,
                    _ => unreachable!(),
                };
                TxnData::Batch(ss1, ss2, ss3)
            }
            Txns::BuildCounter => {
                let (st, _, _) = register.raw(TxnState::default());
                let is_first_build =
                    SideEffectRegistrar::new(&mut st.first, id).register(is_first_build());
                let _ = get.as_ref(Txns::TwoSideEffects);
                let _ = get.as_ref(Txns::Another);
                if is_first_build {
                    TxnData::Count(1)
                } else {
                    match get.as_ref(Txns::BuildCounter) {
                        TxnData::Count(n) => TxnData::Count(n + 1),
                        _ => unreachable!(),
                    }
                }
            }
        }
    }

    fn spec_eq(old: &Self::Data, new: &Self::Data) -> bool {
        <Self as Capsule>::eq(old, new)
    }

    fn eq(_old: &TxnData, _new: &TxnData) -> bool {
        false
    }
}

fn set_first(container: &mut Container<Txns>, mutater: &SideEffectStateMutater, n: u8) {
    container.run_side_effect_mutation(mutater, |st: &mut TxnState| {
        if let Some(pair) = st.pair.as_mut() {
            pair.0 = Some(n);
        }
    });
}

fn set_second(container: &mut Container<Txns>, mutater: &SideEffectStateMutater, n: u8) {
    container.run_side_effect_mutation(mutater, |st: &mut TxnState| {
        if let Some(pair) = st.pair.as_mut() {
            pair.1 = Some(n);
        }
    });
}

fn set_single(container: &mut Container<Txns>, mutater: &SideEffectStateMutater, n: u8) {
    container.run_side_effect_mutation(mutater, |st: &mut TxnState| st.single = Some(n));
}

fn batch_all_updates(container: &mut Container<Txns>, n: u8) {
    let TxnData::Batch(ss1, ss2, ss3) = container.read(Txns::BatchAllUpdatesAction) else {
        unreachable!()
    };
    container.run_side_effect_txn(|c: &mut Container<Txns>| {
        set_first(c, &ss1, n);
        set_second(c, &ss2, n);
        set_single(c, &ss3, n);
    });
}

fn pair(container: &mut Container<Txns>) -> (u8, SideEffectStateMutater, u8, SideEffectStateMutater) {
    match container.read(Txns::TwoSideEffects) {
        TxnData::Pair(s1, ss1, s2, ss2) => (s1, ss1, s2, ss2),
        _ => unreachable!(),
    }
}

fn single(container: &mut Container<Txns>) -> (u8, SideEffectStateMutater) {
    match container.read(Txns::Another) {
        TxnData::Single(s3, ss3) => (s3, ss3),
        _ => unreachable!(),
    }
}

fn build_count(container: &mut Container<Txns>) -> u8 {
    match container.read(Txns::BuildCounter) {
        TxnData::Count(n) => n,
        _ => unreachable!(),
    }
}

#[test]
fn one_capsule_with_multiple_side_effects() {
    let mut container = Container::new();

    assert_eq!(build_count(&mut container), 1);
    let (s1, ss1, s2, ss2) = pair(&mut container);
    assert_eq!(s1, 0);
    assert_eq!(s2, 1);

    container.run_side_effect_txn(|c: &mut Container<Txns>| {
        set_first(c, &ss1, 1);
        set_second(c, &ss2, 2);
    });

    assert_eq!(build_count(&mut container), 2);
    let (s1, _, s2, _) = pair(&mut container);
    assert_eq!(s1, 1);
    assert_eq!(s2, 2);
}

#[test]
fn multiple_capsules_with_one_side_effect_each() {
    let mut container = Container::new();

    assert_eq!(build_count(&mut container), 1);
    let (s1, ss1, s2, _) = pair(&mut container);
    let (s3, ss3) = single(&mut container);
    assert_eq!(s1, 0);
    assert_eq!(s2, 1);
    assert_eq!(s3, 2);

    container.run_side_effect_txn(|c: &mut Container<Txns>| {
        set_first(c, &ss1, 123);
        set_single(c, &ss3, 123);
    });

    assert_eq!(build_count(&mut container), 2);
    let (s1, _, s2, _) = pair(&mut container);
    let (s3, _) = single(&mut container);
    assert_eq!(s1, 123);
    assert_eq!(s2, 1);
    assert_eq!(s3, 123);
}

#[test]
fn multiple_capsules_with_multiple_side_effects() {
    let mut container = Container::new();

    assert_eq!(build_count(&mut container), 1);
    let (s1, _, s2, _) = pair(&mut container);
    let (s3, _) = single(&mut container);
    assert_eq!(s1, 0);
    assert_eq!(s2, 1);
    assert_eq!(s3, 2);

    batch_all_updates(&mut container, 123);

    assert_eq!(build_count(&mut container), 2);
    let (s1, _, s2, _) = pair(&mut container);
    let (s3, _) = single(&mut container);
    assert_eq!(s1, 123);
    assert_eq!(s2, 123);
    assert_eq!(s3, 123);
}

#[test]
fn nested_transactions() {
    let mut container = Container::new();

    assert_eq!(build_count(&mut container), 1);
    let (s1, ss1, s2, _) = pair(&mut container);
    let (s3, ss3) = single(&mut container);
    assert_eq!(s1, 0);
    assert_eq!(s2, 1);
    assert_eq!(s3, 2);

    container.run_side_effect_txn(|c: &mut Container<Txns>| {
        set_first(c, &ss1, 111);
        batch_all_updates(c, 123);
        set_single(c, &ss3, 111);
    });

    assert_eq!(build_count(&mut container), 2);
    let (s1, _, s2, _) = pair(&mut container);
    let (s3, _) = single(&mut container);
    assert_eq!(s1, 123);
    assert_eq!(s2, 123);
    assert_eq!(s3, 111);
}
