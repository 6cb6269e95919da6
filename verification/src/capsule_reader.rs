use vstd::prelude::*;

use std::collections::HashSet;

use crate::txn::{CapsuleManager, ContainerWriteTxn};
use crate::{first_built, Capsule, CapsuleHandle, CapsuleId, CreateCapsuleId, SideEffectRegistrar};

verus! {

/// Allows you to read the current data of capsules based on the given state of the container txn.
///
/// A mocked reader (see [`MockCapsuleReaderBuilder`]) only reads the mocked data.
pub struct CapsuleReader<'a, C: Capsule> {
    pub id: CapsuleId,
    pub txn: &'a mut ContainerWriteTxn<C, C::Data, C::State>,
    pub mocked: bool,
}

impl<'a, C: Capsule> CapsuleReader<'a, C> {
    /// Returns a ref to the current data of the supplied capsule, initializing it if needed,
    /// and records that the capsule being built depends on it.
    ///
    /// A capsule may read only capsules that have data: in particular, it may read itself
    /// only once it has data (that is, not in its first build), and it may not read a
    /// capsule whose build is under way. A mocked reader may read only mocked capsules, and
    /// records nothing.
    pub fn as_ref(&mut self, capsule: C) -> (r: &C::Data)
        requires
            old(self).txn.building(old(self).id.spec_raw()),
            old(self).txn.nodes@.contains_key(capsule.spec_id().spec_raw())
                ==> old(self).txn.data@.contains_key(capsule.spec_id().spec_raw()),
            old(self).mocked ==> old(self).txn.data@.contains_key(capsule.spec_id().spec_raw()),
        ensures
            final(self).id == old(self).id,
            final(self).mocked == old(self).mocked,
            old(self).txn.grows_into(final(self).txn),
            final(self).txn.building(final(self).id.spec_raw()),
            final(self).txn.data@.contains_key(capsule.spec_id().spec_raw()),
            *r == final(self).txn.data@[capsule.spec_id().spec_raw()],
            old(self).mocked || capsule.spec_id() == old(self).id ==> *final(self).txn == *old(self).txn,
            !old(self).mocked && capsule.spec_id() != old(self).id ==> {
                &&& final(self).txn.nodes@[capsule.spec_id().spec_raw()].dependents@.contains(old(self).id.spec_raw())
                &&& first_built(capsule, *old(self).txn, *final(self).txn)
                &&& old(self).txn.nodes@.contains_key(capsule.spec_id().spec_raw()) ==> edge_added(
                    *old(self).txn,
                    *final(self).txn,
                    capsule.spec_id().spec_raw(),
                    old(self).id.spec_raw(),
                )
            },
    {
        let this = self.id.raw();
        let other_id = capsule.id();
        let other = other_id.raw();
        proof {
            crate::capsule_key::lemma_raw_injective(self.id, other_id);
        }
        if this == other || self.mocked {
            proof {
                crate::txn::lemma_grows_into_refl(&*self.txn);
            }
            return match self.txn.try_read_ref_raw(other) {
                Some(d) => d,
                None => vstd::pervasive::unreached(),
            };
        }
        let ghost before = *self.txn;
        self.txn.ensure_initialized(capsule);
        let ghost mid = *self.txn;
        self.txn.add_dependency_relationship(other, this);
        proof {
            assert(mid.grows_into(&*self.txn));
            crate::txn::lemma_grows_into_trans(&before, &mid, &*self.txn);
        }
        match self.txn.try_read_ref_raw(other) {
            Some(d) => d,
            None => vstd::pervasive::unreached(),
        }
    }
}

/// `new` is `old` with one more edge, from `dependency` to its dependent `dependent`, and
/// nothing else changed.
pub open spec fn edge_added<C, D, S>(
    old: ContainerWriteTxn<C, D, S>,
    new: ContainerWriteTxn<C, D, S>,
    dependency: u128,
    dependent: u128,
) -> bool {
    &&& new.data@ == old.data@
    &&& new.builds == old.builds
    &&& new.nodes@.dom() == old.nodes@.dom()
    &&& forall|y: u128| #[trigger] old.nodes@.contains_key(y) ==> {
        &&& new.nodes@[y].capsule == old.nodes@[y].capsule
        &&& new.nodes@[y].side_effect == old.nodes@[y].side_effect
        &&& new.nodes@[y].dependents@ == if y == dependency {
            old.nodes@[y].dependents@.insert(dependent)
        } else {
            old.nodes@[y].dependents@
        }
        &&& new.nodes@[y].dependencies@ == if y == dependent {
            old.nodes@[y].dependencies@.insert(dependency)
        } else {
            old.nodes@[y].dependencies@
        }
    }
}

/// A graph node that only carries mocked data: it is owned by no capsule and has no edges.
pub open spec fn is_mock_node<C, S>(m: CapsuleManager<C, S>) -> bool {
    &&& m.capsule is None
    &&& m.side_effect is None
    &&& m.dependencies@ == Set::<u128>::empty()
    &&& m.dependents@ == Set::<u128>::empty()
}

/// Used to build a mocked [`CapsuleReader`] for use in unit testing capsules.
///
/// The mocked capsules read as the data they were given; reading a capsule that was not
/// mocked is not allowed.
pub struct MockCapsuleReaderBuilder<C: Capsule> {
    txn: ContainerWriteTxn<C, C::Data, C::State>,
}

impl<C: Capsule> MockCapsuleReaderBuilder<C> {
    #[verifier::type_invariant]
    spec fn inv(self) -> bool {
        &&& self.txn.wf()
        &&& self.txn.nodes@.dom() == self.txn.data@.dom()
        &&& forall|x: u128| #[trigger] self.txn.nodes@.contains_key(x) ==> is_mock_node(self.txn.nodes@[x])
    }

    /// The mocked data, by capsule.
    pub closed spec fn mocks(&self) -> Map<u128, C::Data> {
        self.txn.data@
    }

    /// Creates a new [`MockCapsuleReaderBuilder`] with no mocks.
    pub fn new() -> (b: Self)
        ensures
            b.mocks() == Map::<u128, C::Data>::empty(),
    {
        let b = MockCapsuleReaderBuilder { txn: ContainerWriteTxn::new() };
        proof {
            assert(b.txn.nodes@.dom() =~= b.txn.data@.dom());
        }
        b
    }

    /// Mocks the value of the given `capsule` to `data`.
    pub fn set(self, capsule: &C, data: C::Data) -> (b: Self)
        ensures
            b.mocks() == self.mocks().insert(capsule.spec_id().spec_raw(), data),
    {
        proof {
            use_type_invariant(&self);
        }
        let id = capsule.id().raw();
        let MockCapsuleReaderBuilder { mut txn } = self;
        let ghost before = txn;
        if !txn.nodes.contains_key(&id) {
            txn.nodes.insert(
                id,
                CapsuleManager {
                    capsule: None,
                    side_effect: None,
                    dependencies: HashSet::new(),
                    dependents: HashSet::new(),
                },
            );
        }
        txn.data.insert(id, data);
        proof {
            assert(txn.nodes@.dom() =~= txn.data@.dom());
            assert forall|x: u128| #[trigger] txn.nodes@.contains_key(x) implies is_mock_node(txn.nodes@[x]) by {
                if x != id {
                    assert(before.nodes@.contains_key(x));
                }
            }
        }
        MockCapsuleReaderBuilder { txn }
    }

    /// Builds the final mocked reader, with all of the supplied mocks from
    /// [`MockCapsuleReaderBuilder::set`], for the build of `owner`.
    pub fn build(self, owner: &C) -> (r: MockCapsuleReader<C>)
        ensures
            r.id == owner.spec_id(),
            r.txn.building(owner.spec_id().spec_raw()),
            r.txn.data@ == self.mocks(),
            forall|x: u128| #[trigger] r.txn.nodes@.contains_key(x)
                ==> x == owner.spec_id().spec_raw() || r.txn.data@.contains_key(x),
            r.side_effect is None,
    {
        proof {
            use_type_invariant(&self);
        }
        let id = owner.id();
        let MockCapsuleReaderBuilder { mut txn } = self;
        let ghost before = txn;
        if !txn.nodes.contains_key(&id.raw()) {
            txn.nodes.insert(
                id.raw(),
                CapsuleManager {
                    capsule: None,
                    side_effect: None,
                    dependencies: HashSet::new(),
                    dependents: HashSet::new(),
                },
            );
        }
        proof {
            assert forall|x: u128, d: u128|
                txn.nodes@.contains_key(x) && #[trigger] txn.nodes@[x].dependents@.contains(d)
                implies txn.nodes@.contains_key(d) && txn.nodes@[d].dependencies@.contains(x) by {
                if x != id.spec_raw() {
                    assert(before.nodes@.contains_key(x));
                    assert(is_mock_node(before.nodes@[x]));
                }
            }
        }
        MockCapsuleReader { id, txn, side_effect: None }
    }
}

/// A mocked graph for the build of one capsule; see [`MockCapsuleReaderBuilder`].
pub struct MockCapsuleReader<C: Capsule> {
    pub id: CapsuleId,
    pub txn: ContainerWriteTxn<C, C::Data, C::State>,
    pub side_effect: Option<C::State>,
}

impl<C: Capsule> MockCapsuleReader<C> {
    /// The handle to give to the build of the capsule under test.
    pub fn handle(&mut self) -> (h: CapsuleHandle<'_, C>)
        ensures
            h.get.id == old(self).id,
            h.get.mocked,
            *h.get.txn == old(self).txn,
            h.register.id == old(self).id,
            *h.register.side_effect == old(self).side_effect,
            final(self).id == old(self).id,
            final(self).txn == *final(h.get.txn),
            final(self).side_effect == *final(h.register.side_effect),
    {
        CapsuleHandle {
            get: CapsuleReader { id: self.id, txn: &mut self.txn, mocked: true },
            register: SideEffectRegistrar::new(&mut self.side_effect, self.id),
        }
    }

    /// Returns a ref to the mocked data of `capsule`.
    ///
    /// Only mocked capsules can be read this way.
    pub fn as_ref(&self, capsule: C) -> (r: &C::Data)
        requires
            self.txn.data@.contains_key(capsule.spec_id().spec_raw()),
        ensures
            *r == self.txn.data@[capsule.spec_id().spec_raw()],
    {
        match self.txn.try_read_ref_raw(capsule.id().raw()) {
            Some(d) => d,
            None => vstd::pervasive::unreached(),
        }
    }

    /// A reader over the mocked graph.
    pub fn reader(&mut self) -> (r: CapsuleReader<'_, C>)
        ensures
            r.id == old(self).id,
            r.mocked,
            *r.txn == old(self).txn,
            final(self).id == old(self).id,
            final(self).txn == *final(r.txn),
            final(self).side_effect == old(self).side_effect,
    {
        CapsuleReader { id: self.id, txn: &mut self.txn, mocked: true }
    }
}

} // verus!
