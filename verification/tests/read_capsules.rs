use rearch::{Capsule, CapsuleHandle, Container, MockCapsuleReaderBuilder};

#[derive(Clone, Copy, Debug, PartialEq, Eq)]
struct MyCapsule;

impl Capsule for MyCapsule {
    type Data = u8;
    type State = ();
    type Key = ();

    fn capsule_type(&self) -> u64 {
        0
    }

    fn key(&self) {}

    fn spec_capsule_type(&self) -> u64 {
        0
    }

    fn spec_key(&self) {}

    fn build(&self, _handle: CapsuleHandle<'_, Self>) -> u8 {
        123
    }

    fn spec_eq(old: &Self::Data, new: &Self::Data) -> bool {
        <Self as Capsule>::eq(old, new)
    }

    fn eq(old: &u8, new: &u8) -> bool {
        old == new
    }
}

#[test]
fn container_ref_read() {
    let mut container = Container::new();
    let data = container.read_ref(MyCapsule);
    assert_eq!(*data, 123);
}

#[test]
fn container_ref_read_multi() {
    let mut container = Container::new();
    let (data1, data2) = container.read_ref((MyCapsule, MyCapsule));
    assert_eq!(*data1, 123);
    assert_eq!(*data2, 123);
}

#[test]
fn container_clone_read() {
    assert_eq!(Container::new().read(MyCapsule), 123);
}

#[test]
fn container_clone_read_multi() {
    assert_eq!(Container::new().read((MyCapsule, MyCapsule)), (123, 123));
}

/// Capsules read through a mocked reader.
#[derive(Clone, Copy, Debug, PartialEq, Eq)]
enum Mocked {
    Foo,
    Bar,
    UnderTest,
}

#[derive(Clone, Copy, Debug)]
enum MockData {
    Number(u8),
    Getter(fn() -> u8),
}

fn zero() -> u8 {
    0
}

fn one_two_three() -> u8 {
    123
}

impl Capsule for Mocked {
    type Data = MockData;
    type State = ();
    type Key = ();

    fn capsule_type(&self) -> u64 {
        match self {
            Mocked::Foo => 0,
            Mocked::Bar => 1,
            Mocked::UnderTest => 2,
        }
    }

    fn key(&self) {}

    fn spec_capsule_type(&self) -> u64 {
        self.capsule_type()
    }

    fn spec_key(&self) {}

    fn build(&self, handle: CapsuleHandle<'_, Self>) -> MockData {
        let CapsuleHandle { mut get, .. } = handle;
        match self {
            Mocked::Foo => MockData::Number(0),
            Mocked::Bar => MockData::Getter(zero),
            Mocked::UnderTest => match (*get.as_ref(Mocked::Foo), *get.as_ref(Mocked::Bar)) {
                (MockData::Number(n), MockData::Getter(f)) => MockData::Number(n + f()),
                _ => MockData::Number(0),
            },
        }
    }

    fn spec_eq(old: &Self::Data, new: &Self::Data) -> bool {
        <Self as Capsule>::eq(old, new)
    }

    fn eq(_old: &MockData, _new: &MockData) -> bool {
        false
    }
}

fn create_mock_capsule_reader() -> rearch::MockCapsuleReader<Mocked> {
    MockCapsuleReaderBuilder::new()
        .set(&Mocked::Foo, MockData::Number(123))
        .set(&Mocked::Bar, MockData::Getter(one_two_three))
        .build(&Mocked::UnderTest)
}

#[test]
fn mock_capsule_reader_reads_capsules() {
    let get = create_mock_capsule_reader();
    match get.as_ref(Mocked::Foo) {
        MockData::Number(n) => assert_eq!(*n, 123),
        MockData::Getter(_) => panic!("foo is a number"),
    }
    match get.as_ref(Mocked::Bar) {
        MockData::Getter(f) => assert_eq!(f(), 123),
        MockData::Number(_) => panic!("bar is a getter"),
    }
}

#[test]
fn mock_capsule_reader_builds_capsule_under_test() {
    let mut mock = create_mock_capsule_reader();
    match Mocked::UnderTest.build(mock.handle()) {
        MockData::Number(n) => assert_eq!(n, 246),
        MockData::Getter(_) => panic!("the capsule under test gives a number"),
    }
}

#[test]
#[should_panic]
fn mock_capsule_reader_panics_on_unmocked_capsule() {
    create_mock_capsule_reader().as_ref(Mocked::UnderTest);
}
