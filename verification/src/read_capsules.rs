use vstd::prelude::*;

use crate::{first_built, Capsule, Container, CreateCapsuleId};

verus! {

/// A list of capsules with cloneable data.
/// This is either a singular capsule, like `foo_capsule`,
/// or a tuple, like `(foo_capsule, bar_capsule)`.
pub trait CapsulesWithCloneRead<C: Capsule> {
    type Data;

    /// What a read of these capsules gives back and does to the container.
    spec fn spec_read(&self, old: Container<C>, new: Container<C>, data: Self::Data) -> bool;

    fn read(self, container: &mut Container<C>) -> (data: Self::Data)
        ensures
            self.spec_read(*old(container), *final(container), data),
    ;
}

/// The data of `capsule` in `new` is built and `data` is a clone of it.
pub open spec fn reads_as<C: Capsule>(capsule: C, new: Container<C>, data: C::Data) -> bool
    where
        C::Data: Clone,
{
    &&& new.graph().data@.contains_key(capsule.spec_id().spec_raw())
    &&& cloned(new.graph().data@[capsule.spec_id().spec_raw()], data)
}

/// `new` extends `old`, with the same side effect transaction; when every capsule in
/// `ids` was in `old` already, nothing changed at all.
pub open spec fn read_frame<C: Capsule>(old: Container<C>, new: Container<C>, all_present: bool) -> bool {
    &&& old.graph().grows_into(&new.graph())
    &&& all_present ==> new.graph() == old.graph()
    &&& new.in_side_effect_txn() == old.in_side_effect_txn()
    &&& new.modified_in_txn() == old.modified_in_txn()
}

impl<C: Capsule> CapsulesWithCloneRead<C> for C where C::Data: Clone {
    type Data = C::Data;

    open spec fn spec_read(&self, old: Container<C>, new: Container<C>, data: C::Data) -> bool {
        &&& reads_as(*self, new, data)
        &&& read_frame(old, new, old.graph().nodes@.contains_key(self.spec_id().spec_raw()))
        &&& first_built(*self, old.graph(), new.graph())
    }

    fn read(self, container: &mut Container<C>) -> (data: C::Data) {
        container.read_one(self)
    }
}

impl<C: Capsule> CapsulesWithCloneRead<C> for (C, C) where C::Data: Clone {
    type Data = (C::Data, C::Data);

    open spec fn spec_read(&self, old: Container<C>, new: Container<C>, data: Self::Data) -> bool {
        &&& reads_as(self.0, new, data.0)
        &&& reads_as(self.1, new, data.1)
        &&& read_frame(
            old,
            new,
            old.graph().nodes@.contains_key(self.0.spec_id().spec_raw())
                && old.graph().nodes@.contains_key(self.1.spec_id().spec_raw()),
        )
    }

    fn read(self, container: &mut Container<C>) -> (data: Self::Data) {
        let (a, b) = self;
        let ghost c0 = *container;
        let da = container.read_one(a);
        let ghost c1 = *container;
        let db = container.read_one(b);
        proof {
            crate::txn::lemma_grows_into_trans(&c0.graph(), &c1.graph(), &container.graph());
        }
        (da, db)
    }
}

impl<C: Capsule> CapsulesWithCloneRead<C> for (C, C, C) where C::Data: Clone {
    type Data = (C::Data, C::Data, C::Data);

    open spec fn spec_read(&self, old: Container<C>, new: Container<C>, data: Self::Data) -> bool {
        &&& reads_as(self.0, new, data.0)
        &&& reads_as(self.1, new, data.1)
        &&& reads_as(self.2, new, data.2)
        &&& read_frame(
            old,
            new,
            old.graph().nodes@.contains_key(self.0.spec_id().spec_raw())
                && old.graph().nodes@.contains_key(self.1.spec_id().spec_raw())
                && old.graph().nodes@.contains_key(self.2.spec_id().spec_raw()),
        )
    }

    fn read(self, container: &mut Container<C>) -> (data: Self::Data) {
        let (a, b, c) = self;
        let ghost c0 = *container;
        let da = container.read_one(a);
        let ghost c1 = *container;
        let db = container.read_one(b);
        let ghost c2 = *container;
        let dc = container.read_one(c);
        proof {
            crate::txn::lemma_grows_into_trans(&c0.graph(), &c1.graph(), &c2.graph());
            crate::txn::lemma_grows_into_trans(&c0.graph(), &c2.graph(), &container.graph());
        }
        (da, db, dc)
    }
}

/// A list of capsules that can be read via a ref.
/// This is either a singular capsule, like `foo_capsule`,
/// or a tuple, like `(foo_capsule, bar_capsule)`.
pub trait CapsulesWithRefRead<'a, C: Capsule + 'a> {
    type Data;

    /// What a read of these capsules gives back and does to the container.
    spec fn spec_read_ref(&self, old: Container<C>, new: Container<C>, data: Self::Data) -> bool;

    fn read_ref(self, container: &'a mut Container<C>) -> (data: Self::Data)
        ensures
            self.spec_read_ref(*old(container), *final(container), data),
    ;
}

/// The data of `capsule` in `new` is built and `data` is it.
pub open spec fn refers_to<C: Capsule>(capsule: C, new: Container<C>, data: &C::Data) -> bool {
    &&& new.graph().data@.contains_key(capsule.spec_id().spec_raw())
    &&& *data == new.graph().data@[capsule.spec_id().spec_raw()]
}

impl<'a, C: Capsule + 'a> CapsulesWithRefRead<'a, C> for C {
    type Data = &'a C::Data;

    open spec fn spec_read_ref(&self, old: Container<C>, new: Container<C>, data: &'a C::Data) -> bool {
        &&& refers_to(*self, new, data)
        &&& read_frame(old, new, old.graph().nodes@.contains_key(self.spec_id().spec_raw()))
        &&& first_built(*self, old.graph(), new.graph())
    }

    fn read_ref(self, container: &'a mut Container<C>) -> (data: &'a C::Data) {
        let id = self.id().raw();
        container.ensure_built(self);
        let container: &'a Container<C> = container;
        container.data_ref(id)
    }
}

impl<'a, C: Capsule + 'a> CapsulesWithRefRead<'a, C> for (C, C) {
    type Data = (&'a C::Data, &'a C::Data);

    open spec fn spec_read_ref(&self, old: Container<C>, new: Container<C>, data: Self::Data) -> bool {
        &&& refers_to(self.0, new, data.0)
        &&& refers_to(self.1, new, data.1)
        &&& read_frame(
            old,
            new,
            old.graph().nodes@.contains_key(self.0.spec_id().spec_raw())
                && old.graph().nodes@.contains_key(self.1.spec_id().spec_raw()),
        )
    }

    fn read_ref(self, container: &'a mut Container<C>) -> (data: Self::Data) {
        let (a, b) = self;
        let (ia, ib) = (a.id().raw(), b.id().raw());
        let ghost c0 = *container;
        container.ensure_built(a);
        let ghost c1 = *container;
        container.ensure_built(b);
        proof {
            crate::txn::lemma_grows_into_trans(&c0.graph(), &c1.graph(), &container.graph());
        }
        let container: &'a Container<C> = container;
        (container.data_ref(ia), container.data_ref(ib))
    }
}

impl<'a, C: Capsule + 'a> CapsulesWithRefRead<'a, C> for (C, C, C) {
    type Data = (&'a C::Data, &'a C::Data, &'a C::Data);

    open spec fn spec_read_ref(&self, old: Container<C>, new: Container<C>, data: Self::Data) -> bool {
        &&& refers_to(self.0, new, data.0)
        &&& refers_to(self.1, new, data.1)
        &&& refers_to(self.2, new, data.2)
        &&& read_frame(
            old,
            new,
            old.graph().nodes@.contains_key(self.0.spec_id().spec_raw())
                && old.graph().nodes@.contains_key(self.1.spec_id().spec_raw())
                && old.graph().nodes@.contains_key(self.2.spec_id().spec_raw()),
        )
    }

    fn read_ref(self, container: &'a mut Container<C>) -> (data: Self::Data) {
        let (a, b, c) = self;
        let (ia, ib, ic) = (a.id().raw(), b.id().raw(), c.id().raw());
        let ghost c0 = *container;
        container.ensure_built(a);
        let ghost c1 = *container;
        container.ensure_built(b);
        let ghost c2 = *container;
        container.ensure_built(c);
        proof {
            crate::txn::lemma_grows_into_trans(&c0.graph(), &c1.graph(), &c2.graph());
            crate::txn::lemma_grows_into_trans(&c0.graph(), &c2.graph(), &container.graph());
        }
        let container: &'a Container<C> = container;
        (container.data_ref(ia), container.data_ref(ib), container.data_ref(ic))
    }
}

} // verus!
