//! A reactive, incrementally recomputed data flow graph of capsules.
//!
//! Capsules are blueprints for pieces of data. A [`Container`] builds the data
//! of a capsule the first time it is read, remembers which capsules each
//! build read, and rebuilds exactly the affected part of the graph when the
//! private state of a capsule (its side effects) is mutated.
use vstd::prelude::*;

use std::collections::HashSet;

pub mod capsule_key;
pub mod capsule_reader;
pub mod effects;
pub mod laws;
pub mod mutation;
pub mod naming;
pub mod read_capsules;
pub mod side_effect_registrar;
pub mod side_effects;
pub mod txn;
pub mod ui;

pub use capsule_key::{CapsuleId, CapsuleKey, CreateCapsuleId, DynCapsuleKey};
pub use capsule_reader::{CapsuleReader, MockCapsuleReader, MockCapsuleReaderBuilder};
pub use read_capsules::{CapsulesWithCloneRead, CapsulesWithRefRead};
pub use side_effect_registrar::{
    SideEffect, SideEffectRegistrar, SideEffectStateMutater, SideEffectTxnRunner,
};
pub use txn::{CapsuleManager, ContainerReadTxn, ContainerWriteTxn};

verus! {

/// Capsules are blueprints for creating some immutable data
/// and do not actually contain any data themselves.
///
/// All capsules that live in one [`Container`] share one Rust type
/// (typically an enum with one variant per capsule), one type of data and
/// one type of side effect state.
///
/// The contracts of the methods below are what the container relies on; an implementation
/// that is not verified is trusted to meet them (its id methods agree with `spec_capsule_type`
/// and `spec_key`, and its build only uses the handle it is given).
pub trait Capsule: Sized {
    /// The type of data associated with this capsule.
    type Data;

    /// The private state that the side effects of a capsule keep between builds.
    type State;

    /// The type of the (possibly dynamic) key of a capsule.
    type Key: CapsuleKey;

    spec fn spec_capsule_type(&self) -> u64;

    spec fn spec_key(&self) -> Self::Key;

    /// Distinguishes capsules of different kinds that share a key.
    fn capsule_type(&self) -> (t: u64)
        ensures
            t == self.spec_capsule_type(),
    ;

    /// Returns the key to use for this capsule (`()` for static capsules).
    fn key(&self) -> (k: Self::Key)
        ensures
            k == self.spec_key(),
    ;

    /// Builds the capsule's immutable data using a given snapshot of the data flow graph.
    ///
    /// The handle only lets a build read (and thereby initialize) other capsules and
    /// register side effects; so a build leaves every capsule that existed before it
    /// in place with its data, and only adds capsules and dependency edges.
    fn build(&self, handle: CapsuleHandle<'_, Self>) -> (data: Self::Data)
        requires
            old(handle.get.txn).building(handle.get.id.spec_raw()),
        ensures
            old(handle.get.txn).grows_into(final(handle.get.txn)),
    ;

    /// Whether [`Capsule::eq`] finds `old` and `new` equivalent.
    spec fn spec_eq(old: &Self::Data, new: &Self::Data) -> bool;

    /// Returns whether or not a capsule's old data and new data are equivalent
    /// (and thus whether or not we can skip rebuilding dependents as an optimization).
    fn eq(old: &Self::Data, new: &Self::Data) -> (r: bool)
        ensures
            r == Self::spec_eq(old, new),
    ;
}

/// `data` is what a build of `capsule` (the capsule `id`) returned, given the side effect
/// state `state` and a reader over the graph `start` (a container's reader, not a mocked one).
pub open spec fn built_data<C: Capsule>(
    capsule: C,
    id: u128,
    state: Option<C::State>,
    start: ContainerWriteTxn<C, C::Data, C::State>,
    data: C::Data,
) -> bool {
    exists|h: CapsuleHandle<'static, C>|
        #[trigger] call_ensures(C::build, (&capsule, h), data) && h.get.id.spec_raw() == id && !h.get.mocked
            && *h.register.side_effect == state && *h.get.txn == start
}

/// When `capsule` was not in the graph `old`, it was built exactly once on the way to `new`,
/// with no side effect state and a reader over `old` with the new capsule's node added, and
/// `new` holds the data that build returned.
pub open spec fn first_built<C: Capsule>(
    capsule: C,
    old: ContainerWriteTxn<C, C::Data, C::State>,
    new: ContainerWriteTxn<C, C::Data, C::State>,
) -> bool {
    !old.nodes@.contains_key(capsule.spec_id().spec_raw()) ==> {
        &&& new.build_count(capsule.spec_id().spec_raw()) == old.build_count(capsule.spec_id().spec_raw()) + 1
        &&& exists|start: ContainerWriteTxn<C, C::Data, C::State>|
            old.fresh_start(&start, capsule.spec_id().spec_raw()) && #[trigger] built_data(
                capsule,
                capsule.spec_id().spec_raw(),
                None,
                start,
                new.data@[capsule.spec_id().spec_raw()],
            )
    }
}

/// The handle given to [`Capsule`]s in order to [`Capsule::build`] their [`Capsule::Data`].
/// See [`CapsuleReader`] and [`SideEffectRegistrar`] for more.
pub struct CapsuleHandle<'a, C: Capsule> {
    pub get: CapsuleReader<'a, C>,
    pub register: SideEffectRegistrar<'a, C::State>,
}

} // verus!

verus! {

/// Shorthand for `Clone + 'static` data, which makes returning data from capsules easier.
pub trait CData: Clone + 'static {}

impl<T: Clone + 'static> CData for T {}

/// The graph of a container together with the capsules whose side effect state was
/// mutated in the side effect transaction under way, if there is one.
pub struct ContainerState<C: Capsule> {
    pub txn: ContainerWriteTxn<C, C::Data, C::State>,
    pub curr_side_effect_txn_modified_ids: Option<HashSet<u128>>,
}

impl<C: Capsule> ContainerState<C> {
    pub open spec fn wf(&self) -> bool {
        &&& self.txn.at_rest()
        &&& match self.curr_side_effect_txn_modified_ids {
            Some(ids) => forall|x: u128| #[trigger] ids@.contains(x) ==> self.txn.nodes@.contains_key(x),
            None => true,
        }
    }

    fn empty() -> (s: Self)
        ensures
            s.wf(),
            s.txn.nodes@ == Map::<u128, CapsuleManager<C, C::State>>::empty(),
            s.curr_side_effect_txn_modified_ids is None,
    {
        ContainerState { txn: ContainerWriteTxn::new(), curr_side_effect_txn_modified_ids: None }
    }
}

/// A state whose graph extends a well-formed state, with the same transaction, is well-formed.
pub proof fn lemma_state_grows<C: Capsule>(before: ContainerState<C>, after: ContainerState<C>)
    requires
        before.wf(),
        before.txn.grows_into(&after.txn),
        after.curr_side_effect_txn_modified_ids == before.curr_side_effect_txn_modified_ids,
    ensures
        after.wf(),
{
    assert forall|x: u128| #[trigger] after.txn.nodes@.contains_key(x) implies after.txn.nodes@[x].ready()
        && after.txn.data@.contains_key(x) by {
        if before.txn.nodes@.contains_key(x) {
            assert(before.txn.nodes@[x].ready());
        }
    }
    if after.curr_side_effect_txn_modified_ids is Some {
        let ids = after.curr_side_effect_txn_modified_ids->0;
        assert forall|x: u128| #[trigger] ids@.contains(x) implies after.txn.nodes@.contains_key(x) by {
            assert(before.txn.nodes@.contains_key(x));
        }
    }
}

/// `{id}` when capsule `id` is in the graph and has registered a side effect, else `{}`.
pub open spec fn registered_ids<C: Capsule>(g: ContainerWriteTxn<C, C::Data, C::State>, id: u128) -> Set<u128> {
    if g.nodes@.contains_key(id) && g.nodes@[id].side_effect matches Some(Some(_)) {
        set![id]
    } else {
        Set::empty()
    }
}

/// `new` is `old` after a side effect mutation of capsule `id`:
/// - inside a side effect transaction, nothing but the side effect state of `id` changed
///   and `id` (when it has registered side effects) is recorded for rebuilding;
/// - outside of one, the graph was rebuilt from `id` (when it has registered side effects)
///   and garbage collected.
pub open spec fn mutated_as<C: Capsule>(old: Container<C>, new: Container<C>, id: u128) -> bool {
    &&& old.in_side_effect_txn() ==> {
        &&& new.in_side_effect_txn()
        &&& new.graph().data@ == old.graph().data@
        &&& new.graph().nodes@.dom() == old.graph().nodes@.dom()
        &&& forall|x: u128| #[trigger]
            old.graph().nodes@.contains_key(x) && (x != id || registered_ids(old.graph(), id).is_empty())
                ==> new.graph().nodes@[x] == old.graph().nodes@[x]
        &&& old.graph().nodes@.contains_key(id) ==> {
            &&& new.graph().nodes@[id].capsule == old.graph().nodes@[id].capsule
            &&& new.graph().nodes@[id].dependencies == old.graph().nodes@[id].dependencies
            &&& new.graph().nodes@[id].dependents == old.graph().nodes@[id].dependents
        }
        &&& new.modified_in_txn() == old.modified_in_txn().union(registered_ids(old.graph(), id))
    }
    &&& !old.in_side_effect_txn() ==> {
        &&& !new.in_side_effect_txn()
        &&& exists|changed: Set<u128>, disposed: Set<u128>|
            old.graph().propagates(&new.graph(), registered_ids(old.graph(), id), changed)
                && #[trigger] old.graph().collects_garbage(
                &new.graph(),
                registered_ids(old.graph(), id),
                changed,
                disposed,
            )
    }
}

/// `new` is `ran`, the container at the end of the outermost side effect transaction, once
/// the transaction is over: the capsules mutated in it were rebuilt (along with the capsules
/// that needed it, each holding what its build returned) and the graph garbage collected.
pub open spec fn txn_committed<C: Capsule>(ran: Container<C>, new: Container<C>) -> bool {
    &&& !new.in_side_effect_txn()
    &&& exists|changed: Set<u128>, disposed: Set<u128>|
        ran.graph().propagates(&new.graph(), ran.modified_in_txn(), changed)
            && #[trigger] ran.graph().collects_garbage(&new.graph(), ran.modified_in_txn(), changed, disposed)
            && ran.graph().rebuilt_data(&new.graph(), disposed)
}

/// `mid` is the graph `g` with the side effect state of capsule `id` (when it is in the
/// graph) replaced by `t`, and nothing else changed.
pub open spec fn state_replaced<C: Capsule>(
    g: ContainerWriteTxn<C, C::Data, C::State>,
    mid: ContainerWriteTxn<C, C::Data, C::State>,
    id: u128,
    t: C::State,
) -> bool {
    &&& mid.data@ == g.data@
    &&& mid.builds == g.builds
    &&& mid.nodes@.dom() == g.nodes@.dom()
    &&& forall|x: u128| #[trigger] g.nodes@.contains_key(x) && x != id ==> mid.nodes@[x] == g.nodes@[x]
    &&& g.nodes@.contains_key(id) ==> {
        &&& mid.nodes@[id].capsule == g.nodes@[id].capsule
        &&& mid.nodes@[id].dependencies == g.nodes@[id].dependencies
        &&& mid.nodes@[id].dependents == g.nodes@[id].dependents
        &&& mid.nodes@[id].side_effect == Some(Some(t))
    }
}

/// The mutation of capsule `id` was applied with new state `t`: inside a side effect
/// transaction `new` is `old` with that state; outside of one, `new` is the graph with that
/// state rebuilt from `id` (each rebuilt capsule holding what its build returned) and
/// garbage collected.
pub open spec fn applied_with<C: Capsule>(old: Container<C>, new: Container<C>, id: u128, t: C::State) -> bool {
    &&& old.in_side_effect_txn() ==> state_replaced(old.graph(), new.graph(), id, t)
    &&& !old.in_side_effect_txn() ==> exists|
        mid: ContainerWriteTxn<C, C::Data, C::State>,
        changed: Set<u128>,
        disposed: Set<u128>,
    |
        state_replaced(old.graph(), mid, id, t) && mid.propagates(&new.graph(), set![id], changed)
            && #[trigger] mid.collects_garbage(&new.graph(), set![id], changed, disposed)
            && mid.rebuilt_data(&new.graph(), disposed)
}

/// When capsule `id` has registered a side effect, its state went from `s` in `old` to a
/// state `t` with `step(s, t)`, and the mutation was applied with `t`
/// (see [`applied_with`]).
pub open spec fn state_steps<C: Capsule>(
    old: Container<C>,
    new: Container<C>,
    id: u128,
    step: spec_fn(C::State, C::State) -> bool,
) -> bool {
    registered_ids(old.graph(), id).contains(id) ==> exists|s: C::State, t: C::State|
        old.graph().nodes@[id].side_effect == Some(Some(s)) && #[trigger] step(s, t) && applied_with(
            old,
            new,
            id,
            t,
        )
}

/// The step to the state `v`.
pub open spec fn set_to<S>(v: S) -> spec_fn(S, S) -> bool {
    |s: S, t: S| t == v
}

/// The step that keeps the state.
pub open spec fn kept<S>() -> spec_fn(S, S) -> bool {
    |s: S, t: S| t == s
}

/// A mutation takes the state of its capsule a `step` when every call of `mutation` does.
pub proof fn lemma_mutation_steps<C: Capsule, F: FnOnce(&mut C::State)>(
    old: Container<C>,
    new: Container<C>,
    id: u128,
    mutation: F,
    step: spec_fn(C::State, C::State) -> bool,
)
    requires
        registered_ids(old.graph(), id).contains(id) ==> exists|st: &mut C::State|
            old.graph().nodes@[id].side_effect == Some(Some(*st)) && call_ensures(mutation, (st,), ())
                && applied_with(old, new, id, *final(st)),
        forall|st: &mut C::State| call_ensures(mutation, (st,), ()) ==> #[trigger] step(*st, *final(st)),
    ensures
        state_steps(old, new, id, step),
{
    if registered_ids(old.graph(), id).contains(id) {
        let st = choose|st: &mut C::State|
            old.graph().nodes@[id].side_effect == Some(Some(*st)) && call_ensures(mutation, (st,), ())
                && applied_with(old, new, id, *final(st));
        assert(step(*st, *final(st)));
    }
}

/// Steps that imply each other's relation give the same mutation.
pub proof fn lemma_state_steps_weaken<C: Capsule>(
    old: Container<C>,
    new: Container<C>,
    id: u128,
    p: spec_fn(C::State, C::State) -> bool,
    q: spec_fn(C::State, C::State) -> bool,
)
    requires
        state_steps(old, new, id, p),
        forall|s: C::State, t: C::State| #[trigger] p(s, t) ==> q(s, t),
    ensures
        state_steps(old, new, id, q),
{
    if registered_ids(old.graph(), id).contains(id) {
        let (s, t) = choose|s: C::State, t: C::State|
            old.graph().nodes@[id].side_effect == Some(Some(s)) && #[trigger] p(s, t) && applied_with(
                old,
                new,
                id,
                t,
            );
        assert(q(s, t));
    }
}

/// Containers store the current data and state of the data flow graph created by capsules
/// and their dependencies/dependents.
pub struct Container<C: Capsule> {
    state: ContainerState<C>,
}

/// Represents a handle onto a particular listener, as created with [`Container::listen`];
/// hand it to [`Container::dispose_listener`] to remove the listener from the container.
pub struct ListenerHandle {
    pub id: CapsuleId,
}

impl<C: Capsule> Container<C> {
    #[verifier::type_invariant]
    spec fn inv(self) -> bool {
        self.state.wf()
    }

    /// The data flow graph of this container.
    pub closed spec fn graph(&self) -> ContainerWriteTxn<C, C::Data, C::State> {
        self.state.txn
    }

    /// Whether a side effect transaction is under way.
    pub closed spec fn in_side_effect_txn(&self) -> bool {
        self.state.curr_side_effect_txn_modified_ids is Some
    }

    /// The capsules whose side effect state was mutated in the transaction under way.
    pub closed spec fn modified_in_txn(&self) -> Set<u128> {
        match self.state.curr_side_effect_txn_modified_ids {
            Some(ids) => ids@,
            None => Set::empty(),
        }
    }

    /// Initializes a new `Container`, which contains no data when first created.
    pub fn new() -> (c: Self)
        ensures
            c.graph().nodes@ == Map::<u128, CapsuleManager<C, C::State>>::empty(),
            c.graph().data@ == Map::<u128, C::Data>::empty(),
            !c.in_side_effect_txn(),
    {
        Container { state: ContainerState::empty() }
    }

    /// Takes the state out of the container (leaving an empty one) to operate on it.
    fn take_state(&mut self) -> (s: ContainerState<C>)
        ensures
            s == old(self).state,
            s.wf(),
    {
        proof {
            use_type_invariant(&*self);
        }
        let mut s = ContainerState::empty();
        std::mem::swap(&mut self.state, &mut s);
        s
    }

    /// Puts a state back into the container.
    fn put_state(&mut self, s: ContainerState<C>)
        requires
            s.wf(),
        ensures
            final(self).state == s,
    {
        let mut s = s;
        std::mem::swap(&mut self.state, &mut s);
    }

    /// Performs a *consistent* read on all supplied capsules that have cloneable data:
    /// a single capsule, like `foo_capsule`, or a tuple, like `(foo_capsule, bar_capsule)`.
    /// Capsules that are not in the container yet are built first.
    pub fn read<Cs: CapsulesWithCloneRead<C>>(&mut self, capsules: Cs) -> (r: Cs::Data)
        ensures
            capsules.spec_read(*old(self), *final(self), r),
    {
        capsules.read(self)
    }

    /// Puts `listener` into the container and builds it: it is built once now and then
    /// again every time one of the capsules it read changes.
    ///
    /// A listener capsule should register a side effect (such as `as_listener()`), so that
    /// the idempotent garbage collection never disposes it; [`Container::dispose_listener`]
    /// removes it from the container.
    ///
    /// The same listener cannot be listening twice at the same time.
    pub fn listen(&mut self, listener: C) -> (handle: ListenerHandle)
        requires
            !old(self).graph().nodes@.contains_key(listener.spec_id().spec_raw()),
        ensures
            handle.id == listener.spec_id(),
            final(self).graph().nodes@.contains_key(listener.spec_id().spec_raw()),
            final(self).graph().data@.contains_key(listener.spec_id().spec_raw()),
            first_built(listener, old(self).graph(), final(self).graph()),
            old(self).graph().grows_into(&final(self).graph()),
            final(self).in_side_effect_txn() == old(self).in_side_effect_txn(),
            final(self).modified_in_txn() == old(self).modified_in_txn(),
    {
        let id = listener.id();
        let mut s = self.take_state();
        let ghost before = s;
        s.txn.ensure_initialized(listener);
        proof {
            lemma_state_grows(before, s);
        }
        self.put_state(s);
        ListenerHandle { id }
    }

    /// Removes the listener of `handle` from the container
    /// (it no longer gets built when the capsules it read change).
    pub fn dispose_listener(&mut self, handle: ListenerHandle)
        ensures
            final(self).graph().nodes@.dom() == old(self).graph().nodes@.dom().remove(
                handle.id.spec_raw(),
            ),
            final(self).graph().data@ == old(self).graph().data@.remove(handle.id.spec_raw()),
            forall|y: u128| #[trigger]
                old(self).graph().nodes@.contains_key(y) && y != handle.id.spec_raw()
                    ==> final(self).graph().untouched(&old(self).graph(), y),
            final(self).in_side_effect_txn() == old(self).in_side_effect_txn(),
            final(self).modified_in_txn() == old(self).modified_in_txn().remove(handle.id.spec_raw()),
    {
        let id = handle.id.raw();
        let mut s = self.take_state();
        let ghost before = s;
        if s.txn.nodes.contains_key(&id) {
            s.txn.dispose_node(id);
            if let Some(ids) = &mut s.curr_side_effect_txn_modified_ids {
                ids.remove(&id);
            }
            proof {
                assert forall|x: u128| #[trigger] s.txn.nodes@.contains_key(x) implies s.txn.nodes@[x].ready()
                    && s.txn.data@.contains_key(x) by {
                    assert(before.txn.nodes@.contains_key(x));
                }
                if s.curr_side_effect_txn_modified_ids is Some {
                    let ids = s.curr_side_effect_txn_modified_ids->0;
                    assert forall|x: u128| #[trigger] ids@.contains(x) implies s.txn.nodes@.contains_key(x) by {
                        assert(before.curr_side_effect_txn_modified_ids->0@.contains(x));
                    }
                }
            }
        } else {
            proof {
                assert(s.txn.nodes@.dom().remove(id) =~= s.txn.nodes@.dom());
                assert(s.txn.data@.remove(id) =~= s.txn.data@);
                if s.curr_side_effect_txn_modified_ids is Some {
                    let ids = s.curr_side_effect_txn_modified_ids->0;
                    assert(ids@.remove(id) =~= ids@);
                }
                assert(Set::<u128>::empty().remove(id) =~= Set::<u128>::empty());
            }
        }
        self.put_state(s);
    }

    /// Runs `txn` as a side effect transaction: the side effect mutations it makes are
    /// batched, and the capsules they affect are rebuilt in one sweep when the
    /// outermost transaction ends (transactions may nest).
    pub fn run_side_effect_txn<F: FnOnce(&mut Container<C>)>(&mut self, txn: F)
        requires
            forall|c: &mut Container<C>| call_requires(txn, (c,)),
        ensures
            exists|c: &mut Container<C>|
                #[trigger] call_ensures(txn, (c,), ()) && (*c).graph() == old(self).graph()
                    && (*c).in_side_effect_txn() && (*c).modified_in_txn() == old(self).modified_in_txn()
                    && (old(self).in_side_effect_txn() ==> *final(self) == *final(c))
                    && (!old(self).in_side_effect_txn() ==> txn_committed(*final(c), *final(self))),
    {
        proof {
            use_type_invariant(&*self);
        }
        let is_root_txn = self.state.curr_side_effect_txn_modified_ids.is_none();
        if is_root_txn {
            self.state.curr_side_effect_txn_modified_ids = Some(HashSet::new());
        }
        proof {
            assert(self.modified_in_txn() =~= old(self).modified_in_txn());
        }
        txn(self);
        if is_root_txn {
            let ghost mid = *self;
            let mut s = self.take_state();
            let ghost taken = s;
            let to_build = s.curr_side_effect_txn_modified_ids.take();
            let ghost mut changed: Set<u128> = Set::empty();
            let ghost mut gone: Set<u128> = Set::empty();
            if let Some(ids) = to_build {
                let (c, d) = s.txn.build_capsules_or_panic(&ids);
                proof {
                    changed = c@;
                    gone = d@;
                }
            } else {
                proof {
                    crate::txn::lemma_propagates_refl(&s.txn);
                }
            }
            self.put_state(s);
            proof {
                assert(mid.graph() == taken.txn);
                assert(mid.graph().propagates(&self.graph(), mid.modified_in_txn(), changed));
                assert(mid.graph().collects_garbage(&self.graph(), mid.modified_in_txn(), changed, gone));
            }
        }
    }

    /// Applies `mutation` to the side effect state of the capsule of `mutater`, which then
    /// gets rebuilt (along with its dependent capsules that need it), right away or, in a
    /// side effect transaction, when the outermost transaction ends.
    ///
    /// The capsule must be in the container and have registered a side effect (see
    /// [`Container::has_side_effect`]).
    pub fn run_side_effect_mutation<F: FnOnce(&mut C::State)>(
        &mut self,
        mutater: &SideEffectStateMutater,
        mutation: F,
    )
        requires
            registered_ids(old(self).graph(), mutater.id.spec_raw()).contains(mutater.id.spec_raw()),
            forall|st: &mut C::State| call_requires(mutation, (st,)),
        ensures
            mutated_as(*old(self), *final(self), mutater.id.spec_raw()),
            registered_ids(old(self).graph(), mutater.id.spec_raw()).contains(mutater.id.spec_raw())
                ==> exists|st: &mut C::State|
                old(self).graph().nodes@[mutater.id.spec_raw()].side_effect == Some(Some(*st))
                    && call_ensures(mutation, (st,), ())
                    && applied_with(*old(self), *final(self), mutater.id.spec_raw(), *final(st)),
    {
        let id = mutater.id.raw();
        let mut s = self.take_state();
        let ghost before = s;
        let is_root_txn = s.curr_side_effect_txn_modified_ids.is_none();
        if is_root_txn {
            s.curr_side_effect_txn_modified_ids = Some(HashSet::new());
        }
        let mut registered = false;
        let ghost mut new_state: Option<C::State> = None;
        if let Some(node) = s.txn.nodes.remove(&id) {
            let CapsuleManager { capsule, side_effect, dependencies, dependents } = node;
            let side_effect = match side_effect {
                Some(Some(mut state)) => {
                    mutation(&mut state);
                    proof {
                        new_state = Some(state);
                    }
                    registered = true;
                    Some(Some(state))
                },
                other => other,
            };
            s.txn.nodes.insert(id, CapsuleManager { capsule, side_effect, dependencies, dependents });
        }
        if registered {
            if let Some(ids) = &mut s.curr_side_effect_txn_modified_ids {
                ids.insert(id);
            }
        }
        let ghost mid = s;
        proof {
            assert forall|x: u128, d: u128|
                s.txn.nodes@.contains_key(x) && #[trigger] s.txn.nodes@[x].dependents@.contains(d)
                implies s.txn.nodes@.contains_key(d) && s.txn.nodes@[d].dependencies@.contains(x) by {
                assert(before.txn.nodes@[x].dependents@.contains(d));
            }
            assert forall|x: u128| #[trigger] s.txn.nodes@.contains_key(x) implies s.txn.nodes@[x].ready()
                && s.txn.data@.contains_key(x) by {
                assert(before.txn.nodes@.contains_key(x));
            }
        }
        proof {
            if registered {
                assert(state_replaced(before.txn, mid.txn, id, new_state->0)) by {
                    assert(mid.txn.nodes@.dom() =~= before.txn.nodes@.dom());
                }
            }
        }
        let ghost mut witness: Set<u128> = Set::empty();
        let ghost mut gone: Set<u128> = Set::empty();
        if is_root_txn {
            let to_build = s.curr_side_effect_txn_modified_ids.take();
            if let Some(ids) = to_build {
                proof {
                    assert(ids@ =~= if registered { set![id] } else { Set::empty() });
                }
                let (changed, disposed) = s.txn.build_capsules_or_panic(&ids);
                proof {
                    assert(before.txn.nodes@.dom() =~= mid.txn.nodes@.dom());
                    crate::txn::lemma_propagates_from_equiv(&before.txn, &mid.txn, &s.txn, ids@, changed@);
                    crate::txn::lemma_collects_garbage_from_equiv(
                        &before.txn,
                        &mid.txn,
                        &s.txn,
                        ids@,
                        changed@,
                        disposed@,
                    );
                    witness = changed@;
                    gone = disposed@;
                }
            }
        }
        proof {
            let g = before.txn;
            assert(registered == (g.nodes@.contains_key(id) && g.nodes@[id].side_effect matches Some(
                Some(_),
            )));
            let required = if registered { set![id] } else { Set::<u128>::empty() };
            if is_root_txn {
                assert(required =~= registered_ids(g, id));
                assert(before.txn.propagates(&s.txn, registered_ids(g, id), witness));
                assert(before.txn.collects_garbage(&s.txn, registered_ids(g, id), witness, gone));
            } else {
                assert(s.txn.data@ == g.data@);
                assert(s.txn.nodes@.dom() =~= g.nodes@.dom());
                let ids = s.curr_side_effect_txn_modified_ids->0@;
                let old_ids = before.curr_side_effect_txn_modified_ids->0@;
                assert(ids =~= old_ids.union(registered_ids(g, id)));
                assert forall|x: u128| #[trigger]
                    g.nodes@.contains_key(x) && (x != id || registered_ids(g, id).is_empty())
                    implies s.txn.nodes@[x] == g.nodes@[x] by {
                    assert(mid.txn.nodes@[x] == g.nodes@[x]);
                }
            }
        }
        let ghost fin = s;
        self.put_state(s);
        proof {
            if is_root_txn {
                assert(self.graph() == fin.txn);
                assert(old(self).graph().propagates(
                    &self.graph(),
                    registered_ids(old(self).graph(), mutater.id.spec_raw()),
                    witness,
                ));
                assert(old(self).graph().collects_garbage(
                    &self.graph(),
                    registered_ids(old(self).graph(), mutater.id.spec_raw()),
                    witness,
                    gone,
                ));
                if registered {
                    assert(mid.txn.propagates(&self.graph(), set![id], witness));
                    assert(mid.txn.collects_garbage(&self.graph(), set![id], witness, gone));
                }
            }
            if registered {
                assert(applied_with(*old(self), *self, id, new_state->0));
            }
        }
    }

    /// Whether the capsule of `mutater` is in the container and has registered a side effect,
    /// so that it can be mutated.
    pub fn has_side_effect(&self, mutater: &SideEffectStateMutater) -> (r: bool)
        ensures
            r == registered_ids(self.graph(), mutater.id.spec_raw()).contains(mutater.id.spec_raw()),
    {
        let id = mutater.id.raw();
        match self.state.txn.nodes.get(&id) {
            Some(node) => match &node.side_effect {
                Some(Some(_)) => true,
                _ => false,
            },
            None => false,
        }
    }

    /// Rebuilds the capsule of `rebuilder` without changing its side effect state.
    pub fn rebuild(&mut self, rebuilder: &SideEffectStateMutater)
        requires
            registered_ids(old(self).graph(), rebuilder.id.spec_raw()).contains(rebuilder.id.spec_raw()),
        ensures
            mutated_as(*old(self), *final(self), rebuilder.id.spec_raw()),
            old(self).in_side_effect_txn() ==> final(self).graph().nodes@ == old(self).graph().nodes@,
            state_steps(*old(self), *final(self), rebuilder.id.spec_raw(), kept()),
    {
        proof {
            use_type_invariant(&*self);
        }
        let mutation = |st: &mut C::State| ensures *final(st) == *old(st) {};
        let ghost m = mutation;
        let ghost before = *self;
        self.run_side_effect_mutation(rebuilder, mutation);
        proof {
            lemma_mutation_steps(before, *self, rebuilder.id.spec_raw(), m, kept());
            let id = rebuilder.id.spec_raw();
            if old(self).in_side_effect_txn() {
                assert(self.graph().nodes@ =~= old(self).graph().nodes@) by {
                    if old(self).graph().nodes@.contains_key(id) {
                        assert(self.graph().nodes@[id] == old(self).graph().nodes@[id]);
                    }
                }
            }
        }
    }

    /// Replaces the side effect state of the capsule of `mutater` with `new_state`
    /// and rebuilds the capsule (see [`Container::run_side_effect_mutation`]).
    pub fn set_state(&mut self, mutater: &SideEffectStateMutater, new_state: C::State)
        requires
            registered_ids(old(self).graph(), mutater.id.spec_raw()).contains(mutater.id.spec_raw()),
        ensures
            mutated_as(*old(self), *final(self), mutater.id.spec_raw()),
            state_steps(*old(self), *final(self), mutater.id.spec_raw(), set_to(new_state)),
    {
        let ghost v = new_state;
        let mutation = move |st: &mut C::State| ensures *final(st) == v { *st = new_state; };
        let ghost m = mutation;
        let ghost before = *self;
        self.run_side_effect_mutation(mutater, mutation);
        proof {
            lemma_mutation_steps(before, *self, mutater.id.spec_raw(), m, set_to(v));
        }
    }

    /// A consistent read-only snapshot of the data of all built capsules.
    pub fn read_txn(&self) -> (r: ContainerReadTxn<'_, C::Data>)
        ensures
            r.spec_data() == self.graph().data@,
    {
        ContainerReadTxn { data: &self.state.txn.data }
    }

    /// Builds `capsule` (and the capsules it reads) if it is not in the container yet.
    pub(crate) fn ensure_built(&mut self, capsule: C)
        ensures
            final(self).graph().data@.contains_key(capsule.spec_id().spec_raw()),
            old(self).graph().grows_into(&final(self).graph()),
            old(self).graph().nodes@.contains_key(capsule.spec_id().spec_raw())
                ==> final(self).graph() == old(self).graph(),
            first_built(capsule, old(self).graph(), final(self).graph()),
            final(self).in_side_effect_txn() == old(self).in_side_effect_txn(),
            final(self).modified_in_txn() == old(self).modified_in_txn(),
    {
        proof {
            use_type_invariant(&*self);
        }
        let mut s = self.take_state();
        let ghost before = s;
        s.txn.ensure_initialized(capsule);
        proof {
            lemma_state_grows(before, s);
        }
        self.put_state(s);
    }

    /// A reference to the data of the built capsule `id`.
    pub(crate) fn data_ref(&self, id: u128) -> (r: &C::Data)
        requires
            self.graph().data@.contains_key(id),
        ensures
            *r == self.graph().data@[id],
    {
        match self.state.txn.try_read_ref_raw(id) {
            Some(d) => d,
            None => vstd::pervasive::unreached(),
        }
    }

    /// Returns a clone of the data of `capsule`, building it (and the capsules it reads)
    /// first if it is not in the container yet.
    pub(crate) fn read_one(&mut self, capsule: C) -> (r: C::Data)
        where
            C::Data: Clone,
        ensures
            final(self).graph().data@.contains_key(capsule.spec_id().spec_raw()),
            cloned(final(self).graph().data@[capsule.spec_id().spec_raw()], r),
            old(self).graph().grows_into(&final(self).graph()),
            old(self).graph().nodes@.contains_key(capsule.spec_id().spec_raw())
                ==> final(self).graph() == old(self).graph(),
            first_built(capsule, old(self).graph(), final(self).graph()),
            final(self).in_side_effect_txn() == old(self).in_side_effect_txn(),
            final(self).modified_in_txn() == old(self).modified_in_txn(),
    {
        let id = capsule.id().raw();
        self.ensure_built(capsule);
        self.data_ref(id).clone()
    }

    /// Performs a *consistent* read on all supplied capsules, handing out references to
    /// their data: a single capsule, like `foo_capsule`, or a tuple, like
    /// `(foo_capsule, bar_capsule)`. Capsules that are not in the container yet are built first.
    pub fn read_ref<'a, Cs: CapsulesWithRefRead<'a, C>>(&'a mut self, capsules: Cs) -> (r: Cs::Data)
        ensures
            capsules.spec_read_ref(*old(self), *final(self), r),
    {
        capsules.read_ref(self)
    }
}

} // verus!
