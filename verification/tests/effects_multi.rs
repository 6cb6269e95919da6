use rearch::effects::{
    is_first_build, multi, overridable_capsule, state, value, MutRef, OverridableCapsule,
};
use rearch::{Capsule, CapsuleHandle, Container, SideEffectStateMutater};

struct RightSize;

impl Capsule for RightSize {
    type Data = bool;
    type State = Vec<Option<MutRef<bool>>>;
    type Key = ();

    fn capsule_type(&self) -> u64 {
        0
    }

    fn key(&self) {}

    fn spec_capsule_type(&self) -> u64 {
        0
    }

    fn spec_key(&self) {}

    fn build(&self, handle: CapsuleHandle<'_, Self>) -> bool {
        let CapsuleHandle { register, .. } = handle;
        let mut register = register.register(multi::<MutRef<bool>, 1>());
        register.register(is_first_build())
    }

    fn spec_eq(old: &Self::Data, new: &Self::Data) -> bool {
        <Self as Capsule>::eq(old, new)
    }

    fn eq(old: &bool, new: &bool) -> bool {
        old == new
    }
}

#[test]
fn multi_register_right_size() {
    assert!(Container::new().read(RightSize));
}

struct Oversized;

impl Capsule for Oversized {
    type Data = (u32, u32, SideEffectStateMutater);
    type State = Vec<Option<MutRef<u32>>>;
    type Key = ();

    fn capsule_type(&self) -> u64 {
        0
    }

    fn key(&self) {}

    fn spec_capsule_type(&self) -> u64 {
        0
    }

    fn spec_key(&self) {}

    fn build(&self, handle: CapsuleHandle<'_, Self>) -> Self::Data {
        let CapsuleHandle { register, .. } = handle;
        let mut register = register.register(multi::<MutRef<u32>, 16>());
        let (x, set_x) = register.register(state::<MutRef<u32>>(0));
        let x = *x;
        let num_builds = register.register(value::<MutRef<u32>>(0));
        *num_builds += 1;
        (*num_builds, x, set_x)
    }

    fn spec_eq(old: &Self::Data, new: &Self::Data) -> bool {
        <Self as Capsule>::eq(old, new)
    }

    fn eq(_old: &Self::Data, _new: &Self::Data) -> bool {
        false
    }
}

#[test]
fn multi_register_oversized() {
    let mut container = Container::new();
    let (builds, x, set_x) = container.read(Oversized);
    assert_eq!(builds, 1);
    assert_eq!(x, 0);
    container.run_side_effect_mutation(&set_x, |slots: &mut Vec<Option<MutRef<u32>>>| {
        slots[0] = Some(MutRef(123));
    });
    let (builds, x, _) = container.read(Oversized);
    assert_eq!(builds, 2);
    assert_eq!(x, 123);
}

/// Strings built by interchangeable capsules, one of which is picked at runtime.
#[derive(Clone, Debug, PartialEq, Eq)]
enum Strings {
    DefaultString,
    FoobarString,
    DynamicString(u8),
    StringOverridable,
    String,
}

#[derive(Clone, Debug)]
enum StringData {
    Text(String),
    Overridable(OverridableCapsule<Strings>),
}

impl StringData {
    fn text(&self) -> &str {
        match self {
            StringData::Text(text) => text,
            StringData::Overridable(_) => panic!("not a string"),
        }
    }
}

impl Capsule for Strings {
    type Data = StringData;
    type State = Strings;
    type Key = u8;

    fn capsule_type(&self) -> u64 {
        match self {
            Strings::DefaultString => 0,
            Strings::FoobarString => 1,
            Strings::DynamicString(_) => 2,
            Strings::StringOverridable => 3,
            Strings::String => 4,
        }
    }

    fn key(&self) -> u8 {
        match self {
            Strings::DynamicString(n) => *n,
            _ => 0,
        }
    }

    fn spec_capsule_type(&self) -> u64 {
        self.capsule_type()
    }

    fn spec_key(&self) -> u8 {
        self.key()
    }

    fn build(&self, handle: CapsuleHandle<'_, Self>) -> StringData {
        let CapsuleHandle { mut get, register } = handle;
        match self {
            Strings::DefaultString => StringData::Text(String::new()),
            Strings::FoobarString => StringData::Text("foobar".to_owned()),
            Strings::DynamicString(n) => StringData::Text(format!("{n}")),
            Strings::StringOverridable => StringData::Overridable(
                register.register(overridable_capsule(Strings::DefaultString)),
            ),
            Strings::String => {
                let curr_capsule = match get.as_ref(Strings::StringOverridable) {
                    StringData::Overridable(overridable) => overridable.capsule.clone(),
                    StringData::Text(_) => panic!("not an overridable capsule"),
                };
                get.as_ref(curr_capsule).clone()
            }
        }
    }

    fn spec_eq(old: &Self::Data, new: &Self::Data) -> bool {
        <Self as Capsule>::eq(old, new)
    }

    fn eq(_old: &StringData, _new: &StringData) -> bool {
        false
    }
}

fn overridable(container: &mut Container<Strings>) -> OverridableCapsule<Strings> {
    match container.read(Strings::StringOverridable) {
        StringData::Overridable(overridable) => overridable,
        StringData::Text(_) => panic!("not an overridable capsule"),
    }
}

#[test]
fn overridable_capsule_correctly_updates() {
    let mut container = Container::new();
    assert_eq!(container.read(Strings::String).text(), "");

    overridable(&mut container).set(&mut container, Strings::FoobarString);
    assert_eq!(container.read(Strings::String).text(), "foobar");

    overridable(&mut container).set(&mut container, Strings::DefaultString);
    assert_eq!(container.read(Strings::String).text(), "");
}

#[test]
fn overridable_dynamic_capsules_correctly_updates() {
    let mut container = Container::new();
    assert_eq!(container.read(Strings::String).text(), "");

    overridable(&mut container).set(&mut container, Strings::DynamicString(0));
    assert_eq!(container.read(Strings::String).text(), "0");

    overridable(&mut container).set(&mut container, Strings::DynamicString(123));
    assert_eq!(container.read(Strings::String).text(), "123");

    overridable(&mut container).set(&mut container, Strings::DynamicString(0));
    assert_eq!(container.read(Strings::String).text(), "0");

    overridable(&mut container).set(&mut container, Strings::FoobarString);
    assert_eq!(container.read(Strings::String).text(), "foobar");
}
