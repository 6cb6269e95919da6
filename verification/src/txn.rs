use vstd::prelude::*;

use std::collections::{HashMap, HashSet};
use vstd::std_specs::iter::IteratorSpec;

use crate::{built_data, first_built, Capsule, CapsuleHandle, CapsuleId, CapsuleReader, CreateCapsuleId, SideEffectRegistrar};

verus! {

/// The graph node of one capsule: the capsule itself, the state of its side effects,
/// and the capsules it read in its last build (dependencies) and that read it (dependents).
///
/// `capsule` and `side_effect` are `None` only while the capsule is being built,
/// during which the build owns them.
pub struct CapsuleManager<C, S> {
    pub capsule: Option<C>,
    /// `Some(None)`: no side effect was registered yet (the capsule is idempotent).
    pub side_effect: Option<Option<S>>,
    pub dependencies: HashSet<u128>,
    pub dependents: HashSet<u128>,
}

impl<C, S> CapsuleManager<C, S> {
    pub open spec fn ready(&self) -> bool {
        self.capsule is Some && self.side_effect is Some
    }

    /// A capsule is idempotent when it has not registered any side effect.
    pub open spec fn spec_is_idempotent(&self) -> bool {
        self.side_effect == Some(None::<S>)
    }

    fn new(capsule: C) -> (m: Self)
        ensures
            m.capsule == Some(capsule),
            m.side_effect == Some(None::<S>),
            m.dependencies@ == Set::<u128>::empty(),
            m.dependents@ == Set::<u128>::empty(),
    {
        CapsuleManager {
            capsule: Some(capsule),
            side_effect: Some(None),
            dependencies: HashSet::new(),
            dependents: HashSet::new(),
        }
    }

    fn is_idempotent(&self) -> (r: bool)
        requires
            self.side_effect is Some,
        ensures
            r == self.spec_is_idempotent(),
    {
        match &self.side_effect {
            Some(cell) => cell.is_none(),
            None => false,
        }
    }
}

/// Collects the elements of a set into a vector, each once.
pub fn set_to_vec(s: &HashSet<u128>) -> (v: Vec<u128>)
    ensures
        v@.to_set() == s@,
        v@.no_duplicates(),
{
    let mut v: Vec<u128> = Vec::new();
    let iter = s.iter();
    let ghost all = iter.remaining().unref();
    proof {
        assert(all.to_set() == s@);
    }
    for x in it: iter
        invariant
            it.seq().unref() == all,
            v@ == all.take(it.index()),
            all.to_set() == s@,
            all.no_duplicates(),
    {
        v.push(*x);
        proof {
            assert(all.take(it.index() + 1) =~= all.take(it.index()).push(*x));
        }
    }
    proof {
        assert(v@ =~= all);
    }
    v
}

/// A consistent, read-only snapshot of the data of all built capsules.
pub struct ContainerReadTxn<'a, D> {
    pub data: &'a HashMap<u128, D>,
}

impl<'a, D> ContainerReadTxn<'a, D> {
    pub open spec fn spec_data(&self) -> Map<u128, D> {
        self.data@
    }

    /// Returns a reference to the data of `capsule` if it has been built.
    pub fn try_read_ref<C: Capsule<Data = D>>(&self, capsule: &C) -> (r: Option<&'a D>)
        ensures
            match r {
                Some(d) => self.data@.contains_key(capsule.spec_id().spec_raw()) && *d
                    == self.data@[capsule.spec_id().spec_raw()],
                None => !self.data@.contains_key(capsule.spec_id().spec_raw()),
            },
    {
        let id = capsule.id().raw();
        self.data.get(&id)
    }

    /// Returns a clone of the data of `capsule` if it has been built.
    pub fn try_read<C: Capsule<Data = D>>(&self, capsule: &C) -> (r: Option<D>)
        where
            D: Clone,
        ensures
            match r {
                Some(d) => self.data@.contains_key(capsule.spec_id().spec_raw()) && cloned(
                    self.data@[capsule.spec_id().spec_raw()],
                    d,
                ),
                None => !self.data@.contains_key(capsule.spec_id().spec_raw()),
            },
    {
        match self.try_read_ref(capsule) {
            Some(d) => Some(d.clone()),
            None => None,
        }
    }
}

/// The data flow graph of a container: the data of every built capsule,
/// and the graph node of every capsule in the container.
pub struct ContainerWriteTxn<C, D, S> {
    pub data: HashMap<u128, D>,
    pub nodes: HashMap<u128, CapsuleManager<C, S>>,
    /// How many times each capsule was built; kept for the specifications only.
    pub builds: Ghost<Map<u128, nat>>,
}

impl<C, D, S> ContainerWriteTxn<C, D, S> {
    /// How many times capsule `x` was built.
    pub open spec fn build_count(&self, x: u128) -> nat {
        if self.builds@.contains_key(x) {
            self.builds@[x]
        } else {
            0
        }
    }

    pub open spec fn has_node(&self, x: u128) -> bool {
        self.nodes@.contains_key(x)
    }

    pub open spec fn deps(&self, x: u128) -> Set<u128> {
        self.nodes@[x].dependencies@
    }

    pub open spec fn dependents(&self, x: u128) -> Set<u128> {
        self.nodes@[x].dependents@
    }

    /// Every dependent edge points at a node in the graph that records the edge
    /// as one of its dependencies.
    pub open spec fn edges_wf(&self) -> bool {
        forall|x: u128, d: u128|
            #![trigger self.nodes@[x].dependents@.contains(d)]
            self.nodes@.contains_key(x) && self.nodes@[x].dependents@.contains(d)
                ==> self.nodes@.contains_key(d) && self.nodes@[d].dependencies@.contains(x)
    }

    /// Node `x` is built: it is in the graph with its data.
    pub open spec fn at_rest_node(&self, x: u128) -> bool {
        self.nodes@.contains_key(x) && self.data@.contains_key(x)
    }

    pub open spec fn wf(&self) -> bool {
        &&& self.edges_wf()
        &&& forall|x: u128| #[trigger] self.data@.contains_key(x) ==> self.nodes@.contains_key(x)
    }

    /// No build is under way: every node owns its capsule and side effect state and has data.
    pub open spec fn at_rest(&self) -> bool {
        &&& self.wf()
        &&& forall|x: u128| #[trigger]
            self.nodes@.contains_key(x) ==> self.nodes@[x].ready() && self.data@.contains_key(x)
    }

    /// The capsule `id` is being built: its node is in the graph, and the build owns
    /// the node's capsule and side effect state.
    pub open spec fn building(&self, id: u128) -> bool {
        &&& self.wf()
        &&& self.nodes@.contains_key(id)
        &&& self.nodes@[id].capsule is None
        &&& self.nodes@[id].side_effect is None
    }

    /// `new` extends `self`: no node went away, changed its capsule and side effect state
    /// or was rebuilt, no edge went away, no data changed, and every new node is built.
    pub open spec fn grows_into(&self, new: &Self) -> bool {
        &&& new.wf()
        &&& forall|x: u128| #[trigger]
            self.nodes@.contains_key(x) ==> new.nodes@.contains_key(x)
                && new.nodes@[x].capsule == self.nodes@[x].capsule
                && new.nodes@[x].side_effect == self.nodes@[x].side_effect
                && self.nodes@[x].dependencies@.subset_of(new.nodes@[x].dependencies@)
                && self.nodes@[x].dependents@.subset_of(new.nodes@[x].dependents@)
        &&& forall|x: u128| #[trigger]
            self.nodes@.contains_key(x) && self.nodes@[x].capsule is Some
                ==> new.nodes@[x].dependencies@ == self.nodes@[x].dependencies@
        &&& forall|x: u128| #[trigger]
            new.nodes@.contains_key(x) && !self.nodes@.contains_key(x) ==> new.nodes@[x].ready()
                && new.data@.contains_key(x) && new.build_count(x) > self.build_count(x)
        &&& forall|x: u128| #[trigger]
            self.nodes@.contains_key(x) ==> new.build_count(x) == self.build_count(x)
        &&& forall|x: u128| #[trigger] new.build_count(x) >= self.build_count(x)
        &&& forall|x: u128| #[trigger]
            self.data@.contains_key(x) ==> new.data@.contains_key(x) && new.data@[x]
                == self.data@[x]
        &&& forall|x: u128| #[trigger]
            new.data@.contains_key(x) && self.nodes@.contains_key(x) ==> self.data@.contains_key(x)
    }

}

impl<C, D, S> ContainerWriteTxn<C, D, S> {
    /// `start` is `self` prepared for a build of capsule `id`: the node's dependencies are
    /// cleared (and it is no longer a dependent of them), and the build holds the node's capsule
    /// and side effect state.
    pub open spec fn build_start(&self, start: &Self, id: u128) -> bool {
        &&& start.data@ == self.data@
        &&& start.builds == self.builds
        &&& start.nodes@.dom() == self.nodes@.dom()
        &&& start.nodes@[id].capsule is None
        &&& start.nodes@[id].side_effect is None
        &&& start.nodes@[id].dependencies@ == Set::<u128>::empty()
        &&& forall|y: u128| #[trigger]
            self.nodes@.contains_key(y) ==> start.nodes@[y].dependents@ == self.nodes@[y].dependents@.remove(id)
        &&& forall|y: u128| #[trigger]
            self.nodes@.contains_key(y) && y != id ==> start.nodes@[y].capsule == self.nodes@[y].capsule
                && start.nodes@[y].side_effect == self.nodes@[y].side_effect
                && start.nodes@[y].dependencies@ == self.nodes@[y].dependencies@
    }

    /// `start` is `self` with the node of a new capsule `id` added for its first build: the
    /// node has no edges yet, and the build holds its capsule and side effect state.
    pub open spec fn fresh_start(&self, start: &Self, id: u128) -> bool {
        &&& !self.nodes@.contains_key(id)
        &&& start.data@ == self.data@
        &&& start.builds == self.builds
        &&& start.nodes@.dom() == self.nodes@.dom().insert(id)
        &&& start.nodes@[id].capsule is None
        &&& start.nodes@[id].side_effect is None
        &&& start.nodes@[id].dependencies@ == Set::<u128>::empty()
        &&& start.nodes@[id].dependents@ == Set::<u128>::empty()
        &&& forall|y: u128| #[trigger]
            self.nodes@.contains_key(y) ==> start.nodes@[y].capsule == self.nodes@[y].capsule
                && start.nodes@[y].side_effect == self.nodes@[y].side_effect
                && start.nodes@[y].dependencies@ == self.nodes@[y].dependencies@
                && start.nodes@[y].dependents@ == self.nodes@[y].dependents@
    }

    /// `new` is `self`, the graph a build of capsule `id` left, once the build is over: the
    /// node gets its capsule and side effect state back and its data is `data`, and its
    /// dependencies are those that the build recorded.
    pub open spec fn build_end(&self, new: &Self, id: u128, capsule: C, state: Option<S>, data: D) -> bool {
        &&& new.data@ == self.data@.insert(id, data)
        &&& new.nodes@.dom() == self.nodes@.dom()
        &&& forall|y: u128| #[trigger] self.nodes@.contains_key(y) && y != id ==> new.nodes@[y] == self.nodes@[y]
        &&& new.nodes@[id].capsule == Some(capsule)
        &&& new.nodes@[id].side_effect == Some(state)
        &&& new.nodes@[id].dependencies@ == self.nodes@[id].dependencies@
        &&& new.nodes@[id].dependents@ == self.nodes@[id].dependents@
        &&& forall|y: u128| #[trigger] new.build_count(y) == if y == id {
            self.build_count(y) + 1
        } else {
            self.build_count(y)
        }
    }

    /// `x` is one of `ids`, or a capsule of the graph that read, through at most `n`
    /// links of dependencies, one of them.
    pub open spec fn depends_within(&self, ids: Set<u128>, x: u128, n: nat) -> bool
        decreases n,
    {
        ||| ids.contains(x)
        ||| n > 0 && self.nodes@.contains_key(x) && exists|p: u128|
            #[trigger] self.nodes@[x].dependencies@.contains(p) && self.depends_within(ids, p, (n - 1) as nat)
    }

    /// `x` is one of `ids` or depends on one of them, directly or through other capsules.
    pub open spec fn downstream(&self, ids: Set<u128>, x: u128) -> bool {
        exists|n: nat| self.depends_within(ids, x, n)
    }

    /// A path of at most `n` dependent links leads from `x` to `y` (the empty one when
    /// `x == y`).
    pub open spec fn leads_within(&self, x: u128, y: u128, n: nat) -> bool
        decreases n,
    {
        ||| x == y
        ||| n > 0 && exists|z: u128|
            #[trigger] self.nodes@[x].dependents@.contains(z) && self.leads_within(z, y, (n - 1) as nat)
    }

    /// `x` depends on one of `ids` (see [`Self::downstream`]), and a path of dependent links
    /// leads to it from one of them.
    #[verifier::opaque]
    pub open spec fn reached(&self, ids: Set<u128>, x: u128) -> bool {
        &&& self.downstream(ids, x)
        &&& exists|s: u128| ids.contains(s) && #[trigger] self.leads_to(s, x)
    }

    /// A path of dependent links leads from `x` to `y`.
    pub open spec fn leads_to(&self, x: u128, y: u128) -> bool {
        exists|n: nat| self.leads_within(x, y, n)
    }

    /// No capsule of the graph depends on itself, directly or through other capsules.
    pub open spec fn acyclic(&self) -> bool {
        forall|x: u128, d: u128|
            self.nodes@.contains_key(x) && #[trigger] self.nodes@[x].dependents@.contains(d)
                ==> !self.leads_to(d, x)
    }

    /// Every capsule of `order` comes after each of its dependents, except a dependent
    /// that leads back to it.
    pub open spec fn dependents_first(&self, order: Seq<u128>) -> bool {
        forall|i: int, d: u128|
            0 <= i < order.len() && #[trigger] self.nodes@[order[i]].dependents@.contains(d)
                ==> self.leads_to(d, order[i]) || exists|j: int| 0 <= j < i && order[j] == d
    }

    /// The invariant of the depth-first stack `t`, given the visited nodes `vis`.
    pub open spec fn dfs_stack_ok(&self, t: Seq<(bool, u128)>, vis: Set<u128>) -> bool {
        &&& self.stack_covers_dependents(t, vis)
        &&& self.stack_is_path(t)
        &&& self.stack_waits_on_parents(t)
    }

    /// Every entry of the depth-first stack `t` that is being finished has each of its
    /// dependents visited or waiting above it.
    pub open spec fn stack_covers_dependents(&self, t: Seq<(bool, u128)>, vis: Set<u128>) -> bool {
        forall|k: int, d: u128|
            0 <= k < t.len() && t[k].0 && #[trigger] self.nodes@[t[k].1].dependents@.contains(d)
                ==> vis.contains(d) || exists|j: int| k < j < t.len() && t[j] == (false, d)
    }

    /// The entries of the depth-first stack `t` that are being finished lie on a path.
    pub open spec fn stack_is_path(&self, t: Seq<(bool, u128)>) -> bool {
        forall|k1: int, k2: int|
            0 <= k1 < k2 < t.len() && (#[trigger] t[k1]).0 && (#[trigger] t[k2]).0 ==> self.leads_to(
                t[k1].1,
                t[k2].1,
            )
    }

    /// Every waiting entry of the depth-first stack `t` above an entry being finished is a
    /// dependent of the nearest such entry below it.
    pub open spec fn stack_waits_on_parents(&self, t: Seq<(bool, u128)>) -> bool {
        forall|j: int|
            0 <= j < t.len() && !(#[trigger] t[j]).0 ==> (forall|k: int| 0 <= k < j ==> !(#[trigger] t[k]).0)
                || exists|k: int|
                0 <= k < j && t[k].0 && self.nodes@[t[k].1].dependents@.contains(t[j].1) && (forall|m: int|
                    k < m < j ==> !(#[trigger] t[m]).0)
    }
}

impl<C: Capsule> ContainerWriteTxn<C, C::Data, C::State> {
    pub fn new() -> (txn: Self)
        ensures
            txn.data@ == Map::<u128, C::Data>::empty(),
            txn.nodes@ == Map::<u128, CapsuleManager<C, C::State>>::empty(),
            txn.at_rest(),
    {
        ContainerWriteTxn { data: HashMap::new(), nodes: HashMap::new(), builds: Ghost(Map::empty()) }
    }

    /// A read-only snapshot of the data of this txn.
    pub fn downgrade(&self) -> (r: ContainerReadTxn<'_, C::Data>)
        ensures
            r.spec_data() == self.data@,
    {
        ContainerReadTxn { data: &self.data }
    }

    pub(crate) fn try_read_ref_raw(&self, id: u128) -> (r: Option<&C::Data>)
        ensures
            match r {
                Some(d) => self.data@.contains_key(id) && *d == self.data@[id],
                None => !self.data@.contains_key(id),
            },
    {
        self.data.get(&id)
    }

    /// Returns a reference to the data of `capsule` if it has been built.
    pub fn try_read_ref(&self, capsule: &C) -> (r: Option<&C::Data>)
        ensures
            match r {
                Some(d) => self.data@.contains_key(capsule.spec_id().spec_raw()) && *d
                    == self.data@[capsule.spec_id().spec_raw()],
                None => !self.data@.contains_key(capsule.spec_id().spec_raw()),
            },
    {
        self.try_read_ref_raw(capsule.id().raw())
    }

    /// Returns a clone of the data of `capsule` if it has been built.
    pub fn try_read(&self, capsule: &C) -> (r: Option<C::Data>)
        where
            C::Data: Clone,
        ensures
            match r {
                Some(d) => self.data@.contains_key(capsule.spec_id().spec_raw()) && cloned(
                    self.data@[capsule.spec_id().spec_raw()],
                    d,
                ),
                None => !self.data@.contains_key(capsule.spec_id().spec_raw()),
            },
    {
        match self.try_read_ref(capsule) {
            Some(d) => Some(d.clone()),
            None => None,
        }
    }

    /// Removes `d` from the dependents of node `x`, if `x` is in the graph.
    fn remove_dependent(&mut self, x: u128, d: u128)
        ensures
            final(self).builds == old(self).builds,
            final(self).data@ == old(self).data@,
            final(self).nodes@.dom() == old(self).nodes@.dom(),
            forall|y: u128| #[trigger]
                old(self).nodes@.contains_key(y) && y != x ==> final(self).nodes@[y] == old(
                    self,
                ).nodes@[y],
            old(self).nodes@.contains_key(x) ==> {
                &&& final(self).nodes@[x].capsule == old(self).nodes@[x].capsule
                &&& final(self).nodes@[x].side_effect == old(self).nodes@[x].side_effect
                &&& final(self).nodes@[x].dependencies@ == old(self).nodes@[x].dependencies@
                &&& final(self).nodes@[x].dependents@ == old(self).nodes@[x].dependents@.remove(d)
            },
    {
        if let Some(mut node) = self.nodes.remove(&x) {
            node.dependents.remove(&d);
            self.nodes.insert(x, node);
        }
    }

    /// Adds `d` to the dependents of node `x`, if `x` is in the graph.
    fn insert_dependent(&mut self, x: u128, d: u128)
        ensures
            final(self).builds == old(self).builds,
            final(self).data@ == old(self).data@,
            final(self).nodes@.dom() == old(self).nodes@.dom(),
            forall|y: u128| #[trigger]
                old(self).nodes@.contains_key(y) && y != x ==> final(self).nodes@[y] == old(
                    self,
                ).nodes@[y],
            old(self).nodes@.contains_key(x) ==> {
                &&& final(self).nodes@[x].capsule == old(self).nodes@[x].capsule
                &&& final(self).nodes@[x].side_effect == old(self).nodes@[x].side_effect
                &&& final(self).nodes@[x].dependencies@ == old(self).nodes@[x].dependencies@
                &&& final(self).nodes@[x].dependents@ == old(self).nodes@[x].dependents@.insert(d)
            },
    {
        if let Some(mut node) = self.nodes.remove(&x) {
            node.dependents.insert(d);
            self.nodes.insert(x, node);
        }
    }

    /// Adds `p` to the dependencies of node `x`, if `x` is in the graph.
    fn insert_dependency(&mut self, x: u128, p: u128)
        ensures
            final(self).builds == old(self).builds,
            final(self).data@ == old(self).data@,
            final(self).nodes@.dom() == old(self).nodes@.dom(),
            forall|y: u128| #[trigger]
                old(self).nodes@.contains_key(y) && y != x ==> final(self).nodes@[y] == old(
                    self,
                ).nodes@[y],
            old(self).nodes@.contains_key(x) ==> {
                &&& final(self).nodes@[x].capsule == old(self).nodes@[x].capsule
                &&& final(self).nodes@[x].side_effect == old(self).nodes@[x].side_effect
                &&& final(self).nodes@[x].dependencies@ == old(self).nodes@[x].dependencies@.insert(p)
                &&& final(self).nodes@[x].dependents@ == old(self).nodes@[x].dependents@
            },
    {
        if let Some(mut node) = self.nodes.remove(&x) {
            node.dependencies.insert(p);
            self.nodes.insert(x, node);
        }
    }

    /// Records that `dependent` read `dependency` in its current build.
    pub(crate) fn add_dependency_relationship(&mut self, dependency: u128, dependent: u128)
        requires
            old(self).wf(),
            old(self).nodes@.contains_key(dependency),
            old(self).nodes@.contains_key(dependent),
        ensures
            final(self).builds == old(self).builds,
            final(self).wf(),
            final(self).data@ == old(self).data@,
            final(self).nodes@.dom() == old(self).nodes@.dom(),
            forall|y: u128| #[trigger]
                old(self).nodes@.contains_key(y) ==> final(self).nodes@[y].capsule == old(
                    self,
                ).nodes@[y].capsule && final(self).nodes@[y].side_effect == old(
                    self,
                ).nodes@[y].side_effect,
            final(self).nodes@[dependency].dependents@ == old(self).nodes@[dependency].dependents@.insert(dependent),
            final(self).nodes@[dependent].dependencies@ == old(self).nodes@[dependent].dependencies@.insert(dependency),
            forall|y: u128| #[trigger]
                old(self).nodes@.contains_key(y) && y != dependency ==> final(self).nodes@[y].dependents@
                    == old(self).nodes@[y].dependents@,
            forall|y: u128| #[trigger]
                old(self).nodes@.contains_key(y) && y != dependent ==> final(self).nodes@[y].dependencies@
                    == old(self).nodes@[y].dependencies@,
    {
        self.insert_dependent(dependency, dependent);
        self.insert_dependency(dependent, dependency);
        proof {
            let o = *old(self);
            assert forall|x: u128, d: u128|
                self.nodes@.contains_key(x) && #[trigger] self.nodes@[x].dependents@.contains(d)
                implies self.nodes@.contains_key(d) && self.nodes@[d].dependencies@.contains(x) by {
                if !(x == dependency && d == dependent) {
                    assert(o.nodes@[x].dependents@.contains(d));
                }
            }
        }
    }
}

impl<C: Capsule> ContainerWriteTxn<C, C::Data, C::State> {
    /// Empties the dependencies of node `id`, removing `id` from the dependents of each
    /// of its former dependencies (its dependencies may change on the next build).
    fn clear_dependencies(&mut self, id: u128)
        requires
            old(self).wf(),
            old(self).nodes@.contains_key(id),
        ensures
            final(self).builds == old(self).builds,
            final(self).wf(),
            final(self).data@ == old(self).data@,
            final(self).nodes@.dom() == old(self).nodes@.dom(),
            final(self).nodes@[id].dependencies@ == Set::<u128>::empty(),
            forall|y: u128| #[trigger]
                old(self).nodes@.contains_key(y) ==> final(self).nodes@[y].capsule == old(
                    self,
                ).nodes@[y].capsule && final(self).nodes@[y].side_effect == old(
                    self,
                ).nodes@[y].side_effect && final(self).nodes@[y].dependents@ == old(
                    self,
                ).nodes@[y].dependents@.remove(id),
            forall|y: u128| #[trigger]
                old(self).nodes@.contains_key(y) && y != id ==> final(self).nodes@[y].dependencies@
                    == old(self).nodes@[y].dependencies@,
    {
        let ghost o = *old(self);
        let node = self.nodes.remove(&id).unwrap();
        let CapsuleManager { capsule, side_effect, dependencies: old_deps, dependents } = node;
        self.nodes.insert(
            id,
            CapsuleManager { capsule, side_effect, dependencies: HashSet::new(), dependents },
        );
        let deps = set_to_vec(&old_deps);
        let n = deps.len();
        for i in 0..n
            invariant
                n == deps@.len(),
                deps@.to_set() == o.nodes@[id].dependencies@,
                deps@.no_duplicates(),
                o.wf(),
                o.nodes@.contains_key(id),
                self.data@ == o.data@,
                self.builds == o.builds,
                self.nodes@.dom() == o.nodes@.dom(),
                self.nodes@[id].dependencies@ == Set::<u128>::empty(),
                forall|y: u128| #[trigger]
                    o.nodes@.contains_key(y) ==> self.nodes@[y].capsule == o.nodes@[y].capsule
                        && self.nodes@[y].side_effect == o.nodes@[y].side_effect,
                forall|y: u128| #[trigger]
                    o.nodes@.contains_key(y) && y != id ==> self.nodes@[y].dependencies@
                        == o.nodes@[y].dependencies@,
                forall|y: u128| #[trigger]
                    o.nodes@.contains_key(y) ==> self.nodes@[y].dependents@ == if deps@.take(
                        i as int,
                    ).contains(y) {
                        o.nodes@[y].dependents@.remove(id)
                    } else {
                        o.nodes@[y].dependents@
                    },
        {
            let dep = deps[i];
            self.remove_dependent(dep, id);
            proof {
                assert(deps@.take(i + 1) =~= deps@.take(i as int).push(dep));
                assert forall|y: u128| #[trigger] o.nodes@.contains_key(y) implies self.nodes@[y].dependents@
                    == if deps@.take(i + 1).contains(y) {
                    o.nodes@[y].dependents@.remove(id)
                } else {
                    o.nodes@[y].dependents@
                } by {
                    if y == dep {
                        assert(!deps@.take(i as int).contains(dep)) by {
                            if deps@.take(i as int).contains(dep) {
                                let k = choose|k: int| 0 <= k < i && deps@.take(i as int)[k] == dep;
                                assert(deps@[k] == deps@[i as int]);
                            }
                        }
                        assert(deps@.take(i + 1).contains(dep)) by {
                            assert(deps@.take(i + 1)[i as int] == dep);
                        }
                    }
                }
            }
        }
        proof {
            assert(deps@.take(n as int) =~= deps@);
            assert forall|y: u128| #[trigger] o.nodes@.contains_key(y) implies self.nodes@[y].dependents@
                == o.nodes@[y].dependents@.remove(id) by {
                if !deps@.contains(y) {
                    assert(!o.nodes@[y].dependents@.contains(id)) by {
                        if o.nodes@[y].dependents@.contains(id) {
                            assert(o.nodes@[id].dependencies@.contains(y));
                            assert(deps@.to_set().contains(y));
                        }
                    }
                    assert(o.nodes@[y].dependents@.remove(id) =~= o.nodes@[y].dependents@);
                }
            }
            assert forall|x: u128, d: u128|
                self.nodes@.contains_key(x) && #[trigger] self.nodes@[x].dependents@.contains(d)
                implies self.nodes@.contains_key(d) && self.nodes@[d].dependencies@.contains(x) by {
                assert(o.nodes@[x].dependents@.contains(d));
            }
        }
    }

    /// Takes ownership of the capsule and side effect state of node `id` for a build.
    pub(crate) fn take_capsule_and_side_effect(&mut self, id: u128) -> (r: (C, Option<C::State>))
        requires
            old(self).wf(),
            old(self).nodes@.contains_key(id),
            old(self).nodes@[id].ready(),
        ensures
            final(self).builds == old(self).builds,
            final(self).building(id),
            Some(r.0) == old(self).nodes@[id].capsule,
            Some(r.1) == old(self).nodes@[id].side_effect,
            final(self).data@ == old(self).data@,
            final(self).nodes@.dom() == old(self).nodes@.dom(),
            final(self).nodes@[id].dependencies@ == old(self).nodes@[id].dependencies@,
            final(self).nodes@[id].dependents@ == old(self).nodes@[id].dependents@,
            forall|y: u128| #[trigger]
                old(self).nodes@.contains_key(y) && y != id ==> final(self).nodes@[y] == old(
                    self,
                ).nodes@[y],
    {
        let node = self.nodes.remove(&id).unwrap();
        let CapsuleManager { capsule, side_effect, dependencies, dependents } = node;
        let capsule = capsule.unwrap();
        let side_effect = side_effect.unwrap();
        self.nodes.insert(
            id,
            CapsuleManager { capsule: None, side_effect: None, dependencies, dependents },
        );
        proof {
            let o = *old(self);
            assert forall|x: u128, d: u128|
                self.nodes@.contains_key(x) && #[trigger] self.nodes@[x].dependents@.contains(d)
                implies self.nodes@.contains_key(d) && self.nodes@[d].dependencies@.contains(x) by {
                assert(o.nodes@[x].dependents@.contains(d));
            }
        }
        (capsule, side_effect)
    }

    /// Gives node `id` back the ownership of its capsule and side effect state after a build.
    pub(crate) fn yield_capsule_and_side_effect(
        &mut self,
        id: u128,
        capsule: C,
        side_effect: Option<C::State>,
    )
        requires
            old(self).wf(),
            old(self).nodes@.contains_key(id),
        ensures
            final(self).builds == old(self).builds,
            final(self).wf(),
            final(self).data@ == old(self).data@,
            final(self).nodes@.dom() == old(self).nodes@.dom(),
            final(self).nodes@[id].capsule == Some(capsule),
            final(self).nodes@[id].side_effect == Some(side_effect),
            final(self).nodes@[id].dependencies@ == old(self).nodes@[id].dependencies@,
            final(self).nodes@[id].dependents@ == old(self).nodes@[id].dependents@,
            forall|y: u128| #[trigger]
                old(self).nodes@.contains_key(y) && y != id ==> final(self).nodes@[y] == old(
                    self,
                ).nodes@[y],
    {
        let node = self.nodes.remove(&id).unwrap();
        let CapsuleManager { capsule: _, side_effect: _, dependencies, dependents } = node;
        self.nodes.insert(
            id,
            CapsuleManager {
                capsule: Some(capsule),
                side_effect: Some(side_effect),
                dependencies,
                dependents,
            },
        );
        proof {
            let o = *old(self);
            assert forall|x: u128, d: u128|
                self.nodes@.contains_key(x) && #[trigger] self.nodes@[x].dependents@.contains(d)
                implies self.nodes@.contains_key(d) && self.nodes@[d].dependencies@.contains(x) by {
                assert(o.nodes@[x].dependents@.contains(d));
            }
        }
    }

    /// Builds only the requested node, putting its new data into the txn,
    /// and returns whether the data changed (always, for a first build).
    pub(crate) fn build_single_node(&mut self, id: u128) -> (did_change: bool)
        requires
            old(self).wf(),
            old(self).nodes@.contains_key(id),
            old(self).nodes@[id].ready(),
        ensures
            final(self).wf(),
            forall|x: u128| #[trigger]
                old(self).nodes@.contains_key(x) ==> final(self).nodes@.contains_key(x),
            forall|x: u128| #[trigger]
                old(self).nodes@.contains_key(x) && x != id ==> {
                    &&& final(self).nodes@[x].capsule == old(self).nodes@[x].capsule
                    &&& final(self).nodes@[x].side_effect == old(self).nodes@[x].side_effect
                    &&& old(self).nodes@[x].dependencies@.subset_of(final(self).nodes@[x].dependencies@)
                    &&& old(self).nodes@[x].dependents@.remove(id).subset_of(
                        final(self).nodes@[x].dependents@,
                    )
                    &&& old(self).nodes@[x].capsule is Some ==> final(self).nodes@[x].dependencies@
                        == old(self).nodes@[x].dependencies@
                },
            final(self).nodes@[id].capsule == old(self).nodes@[id].capsule,
            final(self).nodes@[id].side_effect is Some,
            forall|x: u128| #[trigger]
                final(self).nodes@.contains_key(x) && !old(self).nodes@.contains_key(x)
                    ==> final(self).nodes@[x].ready() && final(self).data@.contains_key(x),
            forall|x: u128| #[trigger]
                old(self).data@.contains_key(x) && x != id ==> final(self).data@.contains_key(x)
                    && final(self).data@[x] == old(self).data@[x],
            forall|x: u128| #[trigger]
                final(self).data@.contains_key(x) && old(self).nodes@.contains_key(x) && x != id
                    ==> old(self).data@.contains_key(x),
            final(self).data@.contains_key(id),
            exists|h: CapsuleHandle<'_, C>|
                #[trigger] call_ensures(C::build, (&old(self).nodes@[id].capsule->0, h), final(self).data@[id])
                    && h.get.id.spec_raw() == id && !h.get.mocked
                    && *h.register.side_effect == old(self).nodes@[id].side_effect->0
                    && old(self).build_start(&*h.get.txn, id)
                    && (*final(h.get.txn)).build_end(
                    &*final(self),
                    id,
                    old(self).nodes@[id].capsule->0,
                    *final(h.register.side_effect),
                    final(self).data@[id],
                ),
            did_change == (!old(self).data@.contains_key(id) || !C::spec_eq(
                &old(self).data@[id],
                &final(self).data@[id],
            )),
            final(self).build_count(id) == old(self).build_count(id) + 1,
            forall|x: u128| #[trigger]
                old(self).nodes@.contains_key(x) && x != id ==> final(self).build_count(x)
                    == old(self).build_count(x),
            forall|x: u128| #[trigger]
                final(self).nodes@.contains_key(x) && !old(self).nodes@.contains_key(x)
                    ==> final(self).build_count(x) > old(self).build_count(x),
            forall|x: u128| #[trigger] final(self).build_count(x) >= old(self).build_count(x),
    {
        let ghost o = *old(self);
        self.clear_dependencies(id);
        let ghost cleared = *self;
        let (capsule, mut side_effect) = self.take_capsule_and_side_effect(id);
        let ghost before = *self;
        let cid = CapsuleId::from_raw(id);
        let handle = CapsuleHandle {
            get: CapsuleReader { id: cid, txn: self, mocked: false },
            register: SideEffectRegistrar { side_effect: &mut side_effect, id: cid },
        };
        let ghost h = handle;
        let new_data = capsule.build(handle);
        proof {
            assert(before.grows_into(&*self));
        }
        let ghost after = *self;
        self.yield_capsule_and_side_effect(id, capsule, side_effect);
        let did_change = match self.data.remove(&id) {
            Some(old_data) => !C::eq(&old_data, &new_data),
            None => true,
        };
        self.data.insert(id, new_data);
        self.builds = Ghost(self.builds@.insert(id, o.build_count(id) + 1));
        proof {
            assert(o.data@ == before.data@);
            assert(call_ensures(C::build, (&o.nodes@[id].capsule->0, h), self.data@[id]));
            assert(o.build_start(&before, id)) by {
                assert forall|y: u128| #[trigger] o.nodes@.contains_key(y) implies before.nodes@[y].dependents@
                    == o.nodes@[y].dependents@.remove(id) by {
                    assert(cleared.nodes@.contains_key(y));
                }
                assert forall|y: u128| #[trigger] o.nodes@.contains_key(y) && y != id implies before.nodes@[y].capsule
                    == o.nodes@[y].capsule && before.nodes@[y].side_effect == o.nodes@[y].side_effect
                    && before.nodes@[y].dependencies@ == o.nodes@[y].dependencies@ by {
                    assert(cleared.nodes@.contains_key(y));
                }
            }
            assert(*final(h.get.txn) == after);
            assert(after.build_end(&*self, id, o.nodes@[id].capsule->0, side_effect, self.data@[id])) by {
                assert(self.data@ =~= after.data@.insert(id, self.data@[id]));
            }
            assert forall|x: u128| #[trigger]
                self.nodes@.contains_key(x) && !o.nodes@.contains_key(x) implies self.build_count(x) > o.build_count(x) by {
                assert(!before.nodes@.contains_key(x));
                assert(after.nodes@.contains_key(x));
            }
            assert forall|x: u128| #[trigger] o.nodes@.contains_key(x) && x != id implies self.build_count(x)
                == o.build_count(x) by {
                assert(before.nodes@.contains_key(x));
            }
            assert forall|x: u128| #[trigger] self.build_count(x) >= o.build_count(x) by {
                assert(after.build_count(x) >= before.build_count(x));
            }
            assert forall|x: u128| #[trigger]
                old(self).nodes@.contains_key(x) && x != id implies {
                    &&& self.nodes@[x].capsule == o.nodes@[x].capsule
                    &&& self.nodes@[x].side_effect == o.nodes@[x].side_effect
                    &&& o.nodes@[x].dependencies@.subset_of(self.nodes@[x].dependencies@)
                    &&& o.nodes@[x].dependents@.remove(id).subset_of(self.nodes@[x].dependents@)
                    &&& o.nodes@[x].capsule is Some ==> self.nodes@[x].dependencies@
                        == o.nodes@[x].dependencies@
                } by {
                assert(before.nodes@.contains_key(x));
                assert(after.nodes@.contains_key(x));
            }
            assert forall|x: u128| #[trigger]
                self.nodes@.contains_key(x) && !o.nodes@.contains_key(x) implies self.nodes@[x].ready()
                    && self.data@.contains_key(x) by {
                assert(!before.nodes@.contains_key(x));
                assert(after.nodes@.contains_key(x));
            }
            assert forall|x: u128| #[trigger]
                o.data@.contains_key(x) && x != id implies self.data@.contains_key(x)
                    && self.data@[x] == o.data@[x] by {
                assert(before.data@.contains_key(x));
            }
            assert forall|x: u128| #[trigger] self.data@.contains_key(x) implies self.nodes@.contains_key(x) by {
                if x != id {
                    assert(after.data@.contains_key(x));
                }
            }
            assert forall|x: u128| #[trigger]
                self.data@.contains_key(x) && o.nodes@.contains_key(x) && x != id implies o.data@.contains_key(x) by {
                assert(after.data@.contains_key(x));
                assert(before.nodes@.contains_key(x));
            }
        }
        did_change
    }

    /// Puts `capsule` into the graph and builds it, unless it is in the graph already.
    pub(crate) fn ensure_initialized(&mut self, capsule: C)
        requires
            old(self).wf(),
        ensures
            old(self).grows_into(final(self)),
            final(self).nodes@.contains_key(capsule.spec_id().spec_raw()),
            old(self).nodes@.contains_key(capsule.spec_id().spec_raw())
                ==> *final(self) == *old(self),
            !old(self).nodes@.contains_key(capsule.spec_id().spec_raw()) ==> {
                &&& final(self).data@.contains_key(capsule.spec_id().spec_raw())
                &&& final(self).nodes@[capsule.spec_id().spec_raw()].ready()
                &&& final(self).nodes@[capsule.spec_id().spec_raw()].capsule == Some(capsule)
                &&& final(self).build_count(capsule.spec_id().spec_raw()) == old(self).build_count(
                    capsule.spec_id().spec_raw(),
                ) + 1
                &&& first_built(capsule, *old(self), *final(self))
            },
    {
        let id = capsule.id().raw();
        if !self.nodes.contains_key(&id) {
            let ghost o = *self;
            self.nodes.insert(id, CapsuleManager::new(capsule));
            proof {
                assert forall|x: u128, d: u128|
                    self.nodes@.contains_key(x) && #[trigger] self.nodes@[x].dependents@.contains(d)
                    implies self.nodes@.contains_key(d) && self.nodes@[d].dependencies@.contains(x) by {
                    assert(o.nodes@[x].dependents@.contains(d));
                }
            }
            let ghost mid = *self;
            self.build_single_node(id);
            proof {
                assert forall|x: u128| #[trigger] o.nodes@.contains_key(x) implies self.nodes@.contains_key(x)
                    && self.nodes@[x].capsule == o.nodes@[x].capsule
                    && self.nodes@[x].side_effect == o.nodes@[x].side_effect
                    && o.nodes@[x].dependencies@.subset_of(self.nodes@[x].dependencies@)
                    && o.nodes@[x].dependents@.subset_of(self.nodes@[x].dependents@) by {
                    assert(mid.nodes@.contains_key(x) && x != id);
                    assert(!o.nodes@[x].dependents@.contains(id));
                    assert(o.nodes@[x].dependents@.remove(id) =~= o.nodes@[x].dependents@);
                }
                assert forall|x: u128| #[trigger]
                    self.nodes@.contains_key(x) && !o.nodes@.contains_key(x) implies self.nodes@[x].ready()
                        && self.data@.contains_key(x) by {
                    if x != id {
                        assert(!mid.nodes@.contains_key(x));
                    }
                }
                assert forall|x: u128| #[trigger]
                    o.data@.contains_key(x) implies self.data@.contains_key(x) && self.data@[x] == o.data@[x] by {
                    assert(x != id);
                }
                assert forall|x: u128| #[trigger]
                    self.data@.contains_key(x) && o.nodes@.contains_key(x) implies o.data@.contains_key(x) by {
                    assert(x != id);
                    assert(mid.nodes@.contains_key(x));
                }
                let h = choose|h: CapsuleHandle<'_, C>|
                    #[trigger] call_ensures(C::build, (&mid.nodes@[id].capsule->0, h), self.data@[id])
                        && h.get.id.spec_raw() == id && !h.get.mocked
                        && *h.register.side_effect == mid.nodes@[id].side_effect->0
                        && mid.build_start(&*h.get.txn, id)
                        && (*final(h.get.txn)).build_end(
                        &*self,
                        id,
                        mid.nodes@[id].capsule->0,
                        *final(h.register.side_effect),
                        self.data@[id],
                    );
                let start = *h.get.txn;
                assert(o.fresh_start(&start, id)) by {
                    assert(start.nodes@.dom() =~= o.nodes@.dom().insert(id));
                    assert forall|y: u128| #[trigger] o.nodes@.contains_key(y) implies start.nodes@[y].capsule
                        == o.nodes@[y].capsule && start.nodes@[y].side_effect == o.nodes@[y].side_effect
                        && start.nodes@[y].dependencies@ == o.nodes@[y].dependencies@
                        && start.nodes@[y].dependents@ == o.nodes@[y].dependents@ by {
                        assert(mid.nodes@.contains_key(y) && y != id);
                        assert(!o.nodes@[y].dependents@.contains(id));
                        assert(o.nodes@[y].dependents@.remove(id) =~= o.nodes@[y].dependents@);
                    }
                    assert(start.nodes@[id].dependents@ =~= Set::<u128>::empty()) by {
                        assert(mid.nodes@[id].dependents@.remove(id) =~= Set::<u128>::empty());
                    }
                }
                assert(built_data(capsule, id, None, start, self.data@[id]));
            }
        } else {
            proof {
                lemma_grows_into_refl(&*self);
            }
        }
    }

    /// Returns a reference to the data of `capsule`, first building it if it is not in the graph.
    pub fn read_or_init_ref(&mut self, capsule: C) -> (r: &C::Data)
        requires
            old(self).wf(),
            old(self).nodes@.contains_key(capsule.spec_id().spec_raw()) ==> old(
                self,
            ).data@.contains_key(capsule.spec_id().spec_raw()),
        ensures
            old(self).grows_into(final(self)),
            final(self).data@.contains_key(capsule.spec_id().spec_raw()),
            *r == final(self).data@[capsule.spec_id().spec_raw()],
            old(self).nodes@.contains_key(capsule.spec_id().spec_raw())
                ==> *final(self) == *old(self),
            first_built(capsule, *old(self), *final(self)),
    {
        let id = capsule.id().raw();
        let ghost sid = capsule.spec_id().spec_raw();
        self.ensure_initialized(capsule);
        match self.try_read_ref_raw(id) {
            Some(d) => d,
            None => vstd::pervasive::unreached(),
        }
    }
    /// Returns a clone of the data of `capsule`, first building it if it is not in the graph.
    pub fn read_or_init(&mut self, capsule: C) -> (r: C::Data)
        where
            C::Data: Clone,
        requires
            old(self).wf(),
            old(self).nodes@.contains_key(capsule.spec_id().spec_raw()) ==> old(
                self,
            ).data@.contains_key(capsule.spec_id().spec_raw()),
        ensures
            old(self).grows_into(final(self)),
            final(self).data@.contains_key(capsule.spec_id().spec_raw()),
            cloned(final(self).data@[capsule.spec_id().spec_raw()], r),
            old(self).nodes@.contains_key(capsule.spec_id().spec_raw())
                ==> *final(self) == *old(self),
            first_built(capsule, *old(self), *final(self)),
    {
        self.read_or_init_ref(capsule).clone()
    }

    /// Disposes just the supplied node, removing it from the dependents of those of
    /// its dependencies that are still in the graph.
    pub(crate) fn dispose_single_node(&mut self, id: u128)
        requires
            old(self).wf(),
            old(self).nodes@.contains_key(id),
        ensures
            final(self).builds == old(self).builds,
            final(self).wf(),
            final(self).data@ == old(self).data@.remove(id),
            final(self).nodes@.dom() == old(self).nodes@.dom().remove(id),
            forall|y: u128| #[trigger]
                old(self).nodes@.contains_key(y) && y != id ==> {
                    &&& final(self).nodes@[y].capsule == old(self).nodes@[y].capsule
                    &&& final(self).nodes@[y].side_effect == old(self).nodes@[y].side_effect
                    &&& final(self).nodes@[y].dependencies@ == old(self).nodes@[y].dependencies@
                    &&& final(self).nodes@[y].dependents@ == old(self).nodes@[y].dependents@.remove(id)
                },
    {
        let ghost o = *old(self);
        self.data.remove(&id);
        let node = self.nodes.remove(&id).unwrap();
        let deps = set_to_vec(&node.dependencies);
        let n = deps.len();
        for i in 0..n
            invariant
                n == deps@.len(),
                deps@.to_set() == o.nodes@[id].dependencies@,
                deps@.no_duplicates(),
                o.wf(),
                o.nodes@.contains_key(id),
                self.data@ == o.data@.remove(id),
                self.builds == o.builds,
                self.nodes@.dom() == o.nodes@.dom().remove(id),
                forall|y: u128| #[trigger]
                    o.nodes@.contains_key(y) && y != id ==> self.nodes@[y].capsule
                        == o.nodes@[y].capsule && self.nodes@[y].side_effect
                        == o.nodes@[y].side_effect && self.nodes@[y].dependencies@
                        == o.nodes@[y].dependencies@,
                forall|y: u128| #[trigger]
                    o.nodes@.contains_key(y) && y != id ==> self.nodes@[y].dependents@ == if deps@.take(
                        i as int,
                    ).contains(y) {
                        o.nodes@[y].dependents@.remove(id)
                    } else {
                        o.nodes@[y].dependents@
                    },
        {
            let dep = deps[i];
            self.remove_dependent(dep, id);
            proof {
                assert(deps@.take(i + 1) =~= deps@.take(i as int).push(dep));
                assert forall|y: u128| #[trigger] o.nodes@.contains_key(y) && y != id implies self.nodes@[y].dependents@
                    == if deps@.take(i + 1).contains(y) {
                    o.nodes@[y].dependents@.remove(id)
                } else {
                    o.nodes@[y].dependents@
                } by {
                    if y == dep {
                        assert(!deps@.take(i as int).contains(dep)) by {
                            if deps@.take(i as int).contains(dep) {
                                let k = choose|k: int| 0 <= k < i && deps@.take(i as int)[k] == dep;
                                assert(deps@[k] == deps@[i as int]);
                            }
                        }
                        assert(deps@.take(i + 1).contains(dep)) by {
                            assert(deps@.take(i + 1)[i as int] == dep);
                        }
                    }
                }
            }
        }
        proof {
            assert(deps@.take(n as int) =~= deps@);
            assert forall|y: u128| #[trigger] o.nodes@.contains_key(y) && y != id implies self.nodes@[y].dependents@
                == o.nodes@[y].dependents@.remove(id) by {
                if !deps@.contains(y) {
                    assert(!o.nodes@[y].dependents@.contains(id)) by {
                        if o.nodes@[y].dependents@.contains(id) {
                            assert(o.nodes@[id].dependencies@.contains(y));
                            assert(deps@.to_set().contains(y));
                        }
                    }
                    assert(o.nodes@[y].dependents@.remove(id) =~= o.nodes@[y].dependents@);
                }
            }
            assert forall|x: u128, d: u128|
                self.nodes@.contains_key(x) && #[trigger] self.nodes@[x].dependents@.contains(d)
                implies self.nodes@.contains_key(d) && self.nodes@[d].dependencies@.contains(x) by {
                assert(o.nodes@[x].dependents@.contains(d));
            }
        }
    }

    /// Forcefully disposes only the requested node, cleaning up the node's direct dependencies.
    pub(crate) fn dispose_node(&mut self, id: u128)
        requires
            old(self).wf(),
            old(self).nodes@.contains_key(id),
        ensures
            final(self).builds == old(self).builds,
            final(self).wf(),
            final(self).data@ == old(self).data@.remove(id),
            final(self).nodes@.dom() == old(self).nodes@.dom().remove(id),
            forall|y: u128| #[trigger]
                old(self).nodes@.contains_key(y) && y != id ==> {
                    &&& final(self).nodes@[y].capsule == old(self).nodes@[y].capsule
                    &&& final(self).nodes@[y].side_effect == old(self).nodes@[y].side_effect
                    &&& final(self).nodes@[y].dependencies@ == old(self).nodes@[y].dependencies@
                    &&& final(self).nodes@[y].dependents@ == old(self).nodes@[y].dependents@.remove(id)
                },
    {
        self.dispose_single_node(id);
    }

    /// Creates the start nodes' dependent subgraph build order, including start, *as a stack*.
    /// Thus, proper iteration order is done by popping off of the stack (in reverse order)!
    ///
    /// The result holds each node once: exactly the start nodes and every node that
    /// depends, directly or not, on one of them; each node comes after its dependents,
    /// but those that lead back to it (so that, in a graph without cycles, popping the
    /// stack visits every node before its dependents).
    pub(crate) fn create_build_order_stack(&self, start: &HashSet<u128>) -> (order: Vec<u128>)
        requires
            self.wf(),
            forall|x: u128| #[trigger] start@.contains(x) ==> self.nodes@.contains_key(x),
        ensures
            order@.no_duplicates(),
            forall|x: u128| #[trigger] order@.contains(x) ==> self.nodes@.contains_key(x),
            forall|x: u128| #[trigger] start@.contains(x) ==> order@.contains(x),
            forall|x: u128, d: u128|
                order@.contains(x) && #[trigger] self.nodes@[x].dependents@.contains(d)
                    ==> order@.contains(d),
            forall|x: u128| #[trigger] order@.contains(x) ==> self.downstream(start@, x),
            forall|x: u128| #[trigger] order@.contains(x) ==> self.reached(start@, x),
            self.dependents_first(order@),
    {
        let start_vec = set_to_vec(start);
        let mut to_visit: Vec<(bool, u128)> = Vec::new();
        let ns = start_vec.len();
        for i in 0..ns
            invariant
                ns == start_vec@.len(),
                start_vec@.to_set() == start@,
                to_visit@.len() == i,
                forall|k: int| 0 <= k < i ==> #[trigger] to_visit@[k] == (false, start_vec@[k]),
        {
            to_visit.push((false, start_vec[i]));
        }
        let mut visited: HashSet<u128> = HashSet::new();
        let mut order: Vec<u128> = Vec::new();
        proof {
            assert forall|k: int| 0 <= k < to_visit@.len() implies !(#[trigger] to_visit@[k]).0 by {
                assert(to_visit@[k] == (false, start_vec@[k]));
            }
            lemma_dfs_stack_start(self, to_visit@, visited@);
            assert forall|k: int| 0 <= k < to_visit@.len() implies self.nodes@.contains_key(#[trigger] to_visit@[k].1) by {
                assert(to_visit@[k] == (false, start_vec@[k]));
                assert(start_vec@.to_set().contains(start_vec@[k]));
            }
            assert forall|k: int| 0 <= k < to_visit@.len() && !(#[trigger] to_visit@[k]).0
                implies self.reached(start@, to_visit@[k].1) by {
                assert(to_visit@[k] == (false, start_vec@[k]));
                assert(start_vec@.to_set().contains(start_vec@[k]));
                assert(self.depends_within(start@, to_visit@[k].1, 0));
                assert(self.leads_within(to_visit@[k].1, to_visit@[k].1, 0));
                assert(self.leads_to(to_visit@[k].1, to_visit@[k].1));
                reveal(ContainerWriteTxn::reached);
            }
            assert forall|x: u128| #[trigger] start@.contains(x) implies visited@.contains(x)
                || to_visit@.contains((false, x)) by {
                assert(start_vec@.to_set().contains(x));
                let k = choose|k: int| 0 <= k < start_vec@.len() && start_vec@[k] == x;
                assert(to_visit@[k] == (false, x));
            }
        }
        loop
            invariant
                self.wf(),
                forall|x: u128| #[trigger] start@.contains(x) ==> self.nodes@.contains_key(x),
                forall|k: int| 0 <= k < to_visit@.len() ==> self.nodes@.contains_key(#[trigger] to_visit@[k].1),
                forall|x: u128| #[trigger] visited@.contains(x) ==> self.nodes@.contains_key(x),
                order@.no_duplicates(),
                forall|k: int| 0 <= k < order@.len() ==> visited@.contains(#[trigger] order@[k]),
                forall|k: int|
                    0 <= k < to_visit@.len() && (#[trigger] to_visit@[k]).0 ==> visited@.contains(
                        to_visit@[k].1,
                    ) && !order@.contains(to_visit@[k].1),
                forall|k1: int, k2: int|
                    0 <= k1 < to_visit@.len() && 0 <= k2 < to_visit@.len() && (#[trigger] to_visit@[k1]).0
                        && (#[trigger] to_visit@[k2]).0 && to_visit@[k1].1 == to_visit@[k2].1
                        ==> k1 == k2,
                forall|x: u128| #[trigger]
                    visited@.contains(x) ==> order@.contains(x) || to_visit@.contains((true, x)),
                forall|x: u128, d: u128|
                    visited@.contains(x) && #[trigger] self.nodes@[x].dependents@.contains(d)
                        ==> visited@.contains(d) || to_visit@.contains((false, d)),
                forall|x: u128| #[trigger]
                    start@.contains(x) ==> visited@.contains(x) || to_visit@.contains((false, x)),
                forall|x: u128| #[trigger] visited@.contains(x) ==> self.reached(start@, x),
                forall|k: int|
                    0 <= k < to_visit@.len() && !(#[trigger] to_visit@[k]).0 ==> self.reached(
                        start@,
                        to_visit@[k].1,
                    ),
                self.dfs_stack_ok(to_visit@, visited@),
                self.dependents_first(order@),
            ensures
                to_visit@.len() == 0,
            decreases self.nodes@.dom().difference(visited@).len(), to_visit@.len(),
        {
            let ghost t = to_visit@;
            let ghost vis = visited@;
            let ghost ord = order@;
            match to_visit.pop() {
                None => {
                    break ;
                },
                Some(entry) => {
                    let (has_visited_before, node) = entry;
                    let ghost t0 = to_visit@;
                    proof {
                        assert(t.last() == entry);
                        assert(to_visit@ == t.drop_last());
                        assert forall|k: int| 0 <= k < to_visit@.len() && !(#[trigger] to_visit@[k]).0
                            implies self.reached(start@, to_visit@[k].1) by {
                            assert(t[k] == to_visit@[k]);
                        }
                        assert forall|e: (bool, u128)| #[trigger]
                            t.contains(e) && e != entry implies t0.contains(e) by {
                            let k = choose|k: int| 0 <= k < t.len() && t[k] == e;
                            assert(k != t.len() - 1);
                            assert(to_visit@[k] == e);
                        }
                    }
                    if has_visited_before {
                        proof {
                            lemma_dfs_stack_finish(self, t, vis);
                            assert forall|d: u128| #[trigger] self.nodes@[node].dependents@.contains(d)
                                implies self.leads_to(d, node) || ord.contains(d) by {
                                assert(vis.contains(d));
                                if !ord.contains(d) {
                                    assert(t.contains((true, d)));
                                    let kd = choose|kd: int| 0 <= kd < t.len() && t[kd] == (true, d);
                                    if kd == t.len() - 1 {
                                        assert(self.leads_within(d, node, 0));
                                    } else {
                                        assert(t[kd].0);
                                    }
                                }
                            }
                            lemma_dependents_first_push(self, ord, node);
                        }
                        order.push(node);
                        proof {
                            assert forall|k: int| 0 <= k < to_visit@.len() && (#[trigger] to_visit@[k]).0
                                implies visited@.contains(to_visit@[k].1) && !order@.contains(
                                to_visit@[k].1,
                            ) by {
                                assert(t[k] == to_visit@[k]);
                                if to_visit@[k].1 == node {
                                    assert(t[t.len() - 1] == entry);
                                }
                                if order@.contains(to_visit@[k].1) {
                                    let j = choose|j: int| 0 <= j < order@.len() && order@[j] == to_visit@[k].1;
                                    if j < ord.len() {
                                        assert(ord[j] == order@[j]);
                                        assert(ord.contains(to_visit@[k].1));
                                    }
                                }
                            }
                            assert forall|k: int| 0 <= k < order@.len() implies visited@.contains(#[trigger] order@[k]) by {
                                if k < ord.len() {
                                    assert(ord[k] == order@[k]);
                                }
                            }
                            assert forall|x: u128| #[trigger]
                                visited@.contains(x) implies order@.contains(x) || to_visit@.contains((true, x)) by {
                                if x == node {
                                    assert(order@[order@.len() - 1] == node);
                                } else if ord.contains(x) {
                                    let j = choose|j: int| 0 <= j < ord.len() && ord[j] == x;
                                    assert(order@[j] == x);
                                }
                            }
                        }
                    } else if !visited.contains(&node) {
                        visited.insert(node);
                        to_visit.push((true, node));
                        let ghost t1 = to_visit@;
                        proof {
                            assert(t[t.len() - 1] == entry);
                            assert(self.reached(start@, node));
                            assert forall|k: int| 0 <= k < t1.len() && !(#[trigger] t1[k]).0
                                implies self.reached(start@, t1[k].1) by {
                                assert(t1[k] == to_visit@[k]);
                                if k < t0.len() {
                                    assert(t0[k] == t1[k]);
                                }
                            }
                            assert forall|e: (bool, u128)| #[trigger]
                                t.contains(e) && e != entry implies t1.contains(e) by {
                                assert(t0.contains(e));
                                let k = choose|k: int| 0 <= k < t0.len() && t0[k] == e;
                                assert(t1[k] == e);
                            }
                            assert(t1[t1.len() - 1] == (true, node));
                        }
                        let deps = set_to_vec(&self.nodes.get(&node).unwrap().dependents);
                        let nd = deps.len();
                        for j in 0..nd
                            invariant
                                nd == deps@.len(),
                                deps@.to_set() == self.nodes@[node].dependents@,
                                self.wf(),
                                self.nodes@.contains_key(node),
                                visited@.contains(node),
                                forall|x: u128| #[trigger] visited@.contains(x) ==> self.nodes@.contains_key(x),
                                to_visit@.len() >= t1.len(),
                                forall|k: int| 0 <= k < t1.len() ==> #[trigger] to_visit@[k] == t1[k],
                                forall|k: int|
                                    t1.len() <= k < to_visit@.len() ==> !(#[trigger] to_visit@[k]).0
                                        && self.nodes@[node].dependents@.contains(to_visit@[k].1),
                                forall|j2: int|
                                    0 <= j2 < j ==> visited@.contains(#[trigger] deps@[j2])
                                        || to_visit@.contains((false, deps@[j2])),
                                forall|j2: int|
                                    0 <= j2 < j ==> visited@.contains(#[trigger] deps@[j2]) || exists|k: int|
                                        t1.len() <= k < to_visit@.len() && to_visit@[k] == (false, deps@[j2]),
                                self.reached(start@, node),
                        {
                            let d = deps[j];
                            let ghost tj = to_visit@;
                            if !visited.contains(&d) {
                                to_visit.push((false, d));
                                proof {
                                    assert(deps@.to_set().contains(d)) by {
                                        assert(deps@.contains(d));
                                    }
                                    assert(to_visit@[to_visit@.len() - 1] == (false, d));
                                    assert forall|j2: int| 0 <= j2 < j + 1 implies visited@.contains(#[trigger] deps@[j2])
                                        || to_visit@.contains((false, deps@[j2])) by {
                                        if j2 < j && !visited@.contains(deps@[j2]) {
                                            let k = choose|k: int| 0 <= k < tj.len() && tj[k] == (false, deps@[j2]);
                                            assert(to_visit@[k] == (false, deps@[j2]));
                                        }
                                    }
                                    assert forall|j2: int| 0 <= j2 < j + 1 implies visited@.contains(#[trigger] deps@[j2])
                                        || exists|k: int|
                                        t1.len() <= k < to_visit@.len() && to_visit@[k] == (false, deps@[j2]) by {
                                        if j2 < j && !visited@.contains(deps@[j2]) {
                                            let k = choose|k: int|
                                                t1.len() <= k < tj.len() && tj[k] == (false, deps@[j2]);
                                            assert(to_visit@[k] == (false, deps@[j2]));
                                        }
                                        if j2 == j {
                                            assert(to_visit@[to_visit@.len() - 1] == (false, deps@[j2]));
                                        }
                                    }
                                }
                            }
                        }
                        proof {
                            let tf = to_visit@;
                            assert forall|k: int| 0 <= k < tf.len() && !(#[trigger] tf[k]).0
                                implies self.reached(start@, tf[k].1) by {
                                if k < t1.len() {
                                    assert(tf[k] == t1[k]);
                                } else {
                                    let d = tf[k].1;
                                    assert(self.nodes@[node].dependents@.contains(d));
                                    assert(self.nodes@.contains_key(d) && self.nodes@[d].dependencies@.contains(node));
                                    reveal(ContainerWriteTxn::reached);
                                    lemma_downstream_step(self, start@, node, d);
                                    let s0 = choose|s0: u128| start@.contains(s0) && #[trigger] self.leads_to(s0, node);
                                    lemma_leads_to_step(self, s0, node, d);
                                }
                            }
                            assert forall|e: (bool, u128)| #[trigger] t1.contains(e) implies tf.contains(e) by {
                                let k = choose|k: int| 0 <= k < t1.len() && t1[k] == e;
                                assert(tf[k] == e);
                            }
                            let dom = self.nodes@.dom();
                            assert(dom.finite());
                            assert(dom.difference(visited@) =~= dom.difference(vis).remove(node));
                            assert(dom.difference(vis).contains(node));
                            assert(dom.difference(vis).finite());
                            assert(dom.difference(visited@).len() < dom.difference(vis).len());
                            assert forall|x: u128| #[trigger]
                                visited@.contains(x) implies order@.contains(x) || tf.contains((true, x)) by {
                                if x == node {
                                    assert(t1.contains((true, node)));
                                } else {
                                    assert(vis.contains(x));
                                    if !ord.contains(x) {
                                        assert(t.contains((true, x)));
                                        assert(t1.contains((true, x)));
                                    }
                                }
                            }
                            assert forall|d: u128| #[trigger] self.nodes@[node].dependents@.contains(d)
                                implies visited@.contains(d) || tf.contains((false, d)) by {
                                assert(deps@.to_set().contains(d));
                                let j2 = choose|j2: int| 0 <= j2 < deps@.len() && deps@[j2] == d;
                                assert(visited@.contains(deps@[j2]) || tf.contains((false, deps@[j2])));
                            }
                            assert forall|d: u128| #[trigger] self.nodes@[t.last().1].dependents@.contains(d)
                                implies visited@.contains(d) || exists|k: int|
                                t.len() <= k < tf.len() && tf[k] == (false, d) by {
                                assert(deps@.to_set().contains(d));
                                let j2 = choose|j2: int| 0 <= j2 < deps@.len() && deps@[j2] == d;
                            }
                            assert forall|k: int| 0 <= k < t.len() - 1 implies #[trigger] tf[k] == t[k] by {
                                assert(tf[k] == t1[k]);
                            }
                            lemma_dfs_stack_open(self, t, vis, tf, visited@);
                        }
                    } else {
                        proof {
                            lemma_dfs_stack_skip(self, t, vis);
                        }
                    }
                }
            }
        }
        proof {
            assert forall|x: u128| #[trigger] visited@.contains(x) implies order@.contains(x) by {
                if to_visit@.contains((true, x)) {
                    let k = choose|k: int| 0 <= k < to_visit@.len() && to_visit@[k] == (true, x);
                }
            }
            assert forall|x: u128| #[trigger] order@.contains(x) implies visited@.contains(x) by {
                let k = choose|k: int| 0 <= k < order@.len() && order@[k] == x;
            }
            reveal(ContainerWriteTxn::reached);
        }
        order
    }

    /// The idempotent capsules among `order[..i]` with no non-disposable dependents,
    /// found by walking `order` from its start.
    pub open spec fn disposable_upto(&self, order: Seq<u128>, i: nat) -> Set<u128>
        decreases i,
    {
        if i == 0 {
            Set::empty()
        } else {
            let prev = self.disposable_upto(order, (i - 1) as nat);
            let x = order[i - 1];
            if self.nodes@[x].spec_is_idempotent() && self.nodes@[x].dependents@.subset_of(prev) {
                prev.insert(x)
            } else {
                prev
            }
        }
    }

    /// Every capsule that `x` leads to (`x` included) is an idempotent capsule of the graph.
    pub open spec fn only_idempotent_downstream(&self, x: u128) -> bool {
        forall|y: u128| #[trigger]
            self.leads_to(x, y) ==> self.nodes@.contains_key(y) && self.nodes@[y].spec_is_idempotent()
    }

    /// `new` is `self` after rebuilding the capsules `ids`, where `changed` are the capsules
    /// found to have changed and `disposed` those garbage collected:
    /// - only idempotent capsules that changed are disposed,
    /// - a disposed capsule is back in the graph only when a later build read it again,
    /// - a capsule of the graph that was rebuilt and not disposed changed exactly when
    ///   [`Capsule::eq`] did not find its new data equivalent to its old data, and a capsule
    ///   that changed and was not disposed was rebuilt,
    /// - in a graph without cycles, every capsule that was required, or depends on a capsule
    ///   that changed, and leads to idempotent capsules only, is disposed.
    pub open spec fn collects_garbage(&self, new: &Self, ids: Set<u128>, changed: Set<u128>, disposed: Set<u128>) -> bool {
        &&& forall|x: u128| #[trigger]
            disposed.contains(x) ==> changed.contains(x) && self.nodes@.contains_key(x)
                && self.nodes@[x].spec_is_idempotent()
        &&& forall|x: u128| #[trigger]
            disposed.contains(x) && new.nodes@.contains_key(x) ==> new.build_count(x) > self.build_count(x)
        &&& forall|x: u128|
            self.nodes@.contains_key(x) && new.nodes@.contains_key(x) && !disposed.contains(x)
                && #[trigger] new.build_count(x) > self.build_count(x) ==> (changed.contains(x)
                <==> !C::spec_eq(&self.data@[x], &new.data@[x]))
        &&& forall|x: u128| #[trigger]
            changed.contains(x) && !disposed.contains(x) ==> new.nodes@.contains_key(x)
                && new.build_count(x) > self.build_count(x)
        &&& self.acyclic() ==> forall|x: u128|
            self.nodes@.contains_key(x) && #[trigger] self.only_idempotent_downstream(x) && (ids.contains(x)
                || exists|p: u128| changed.contains(p) && self.nodes@[p].dependents@.contains(x))
                ==> disposed.contains(x)
    }

    /// Every capsule of the graph that `new` rebuilt (and that was not disposed) was rebuilt
    /// once, and holds the data that its build returned, given the side effect state it had
    /// in `self`.
    pub open spec fn rebuilt_data(&self, new: &Self, disposed: Set<u128>) -> bool {
        &&& forall|x: u128|
            self.nodes@.contains_key(x) && !disposed.contains(x) ==> #[trigger] new.build_count(x)
                <= self.build_count(x) + 1
        &&& forall|x: u128|
            self.nodes@.contains_key(x) && new.nodes@.contains_key(x) && !disposed.contains(x)
                && #[trigger] new.build_count(x) > self.build_count(x) ==> exists|
                start: ContainerWriteTxn<C, C::Data, C::State>,
            | #[trigger]
                built_data(self.nodes@[x].capsule->0, x, self.nodes@[x].side_effect->0, start, new.data@[x])
                    && (self.acyclic() ==> self.read_final_data(&start, new, disposed, x))
    }

    /// The graph `start`, in which capsule `x` was rebuilt, already held the final data (that
    /// of `new`) of every capsule that `x` was a dependent of and that was not disposed: in a
    /// graph without cycles, a capsule is rebuilt after the capsules it depends on.
    #[verifier::opaque]
    pub open spec fn read_final_data(&self, start: &Self, new: &Self, disposed: Set<u128>, x: u128) -> bool {
        forall|p: u128|
            self.nodes@.contains_key(p) && #[trigger] self.nodes@[p].dependents@.contains(x)
                && new.nodes@.contains_key(p) && !disposed.contains(p) ==> start.data@.contains_key(p)
                && start.data@[p] == new.data@[p]
    }

    /// Finds all idempotent capsules with no nonidempotent downstream capsules,
    /// given a `build_order_stack` (a *reversed build order*).
    pub(crate) fn get_disposable_nodes_from_build_order_stack(&self, build_order_stack: &Vec<u128>) -> (disposable:
        HashSet<u128>)
        requires
            forall|k: int|
                0 <= k < build_order_stack@.len() ==> self.nodes@.contains_key(
                    #[trigger] build_order_stack@[k],
                ) && self.nodes@[build_order_stack@[k]].side_effect is Some,
        ensures
            disposable@ == self.disposable_upto(build_order_stack@, build_order_stack@.len()),
    {
        let mut disposable: HashSet<u128> = HashSet::new();
        let n = build_order_stack.len();
        for i in 0..n
            invariant
                n == build_order_stack@.len(),
                forall|k: int|
                    0 <= k < build_order_stack@.len() ==> self.nodes@.contains_key(
                        #[trigger] build_order_stack@[k],
                    ) && self.nodes@[build_order_stack@[k]].side_effect is Some,
                disposable@ == self.disposable_upto(build_order_stack@, i as nat),
        {
            let id = build_order_stack[i];
            let node = self.nodes.get(&id).unwrap();
            let dependents = set_to_vec(&node.dependents);
            let nd = dependents.len();
            let mut dependents_all_disposable = true;
            for j in 0..nd
                invariant
                    nd == dependents@.len(),
                    dependents_all_disposable == forall|j2: int|
                        0 <= j2 < j ==> disposable@.contains(#[trigger] dependents@[j2]),
            {
                if !disposable.contains(&dependents[j]) {
                    dependents_all_disposable = false;
                }
            }
            proof {
                assert(dependents_all_disposable == node.dependents@.subset_of(disposable@)) by {
                    if dependents_all_disposable {
                        assert forall|d: u128| node.dependents@.contains(d) implies disposable@.contains(d) by {
                            assert(dependents@.to_set().contains(d));
                            let j2 = choose|j2: int| 0 <= j2 < nd && dependents@[j2] == d;
                        }
                    } else {
                        let j2 = choose|j2: int| 0 <= j2 < nd && !disposable@.contains(#[trigger] dependents@[j2]);
                        assert(dependents@.to_set().contains(dependents@[j2]));
                    }
                }
            }
            if node.is_idempotent() && dependents_all_disposable {
                disposable.insert(id);
            }
        }
        disposable
    }

    /// Node `x` is the same as in `old`: same data, dependencies, capsule and side effect
    /// state, and it was not rebuilt.
    pub open spec fn untouched(&self, old: &Self, x: u128) -> bool {
        &&& self.nodes@.contains_key(x)
        &&& self.data@.contains_key(x) == old.data@.contains_key(x)
        &&& self.data@[x] == old.data@[x]
        &&& self.nodes@[x].dependencies@ == old.nodes@[x].dependencies@
        &&& self.nodes@[x].capsule == old.nodes@[x].capsule
        &&& self.nodes@[x].side_effect == old.nodes@[x].side_effect
        &&& self.build_count(x) == old.build_count(x)
    }

    /// `new` is `self` after rebuilding the capsules `ids`, where `changed` are the capsules
    /// found to have changed:
    /// - only idempotent capsules that changed are disposed,
    /// - a capsule changes only when it is required or one of its dependencies changed,
    /// - a capsule that is not required and none of whose dependencies changed is untouched,
    /// - a required capsule that is not idempotent stays in the graph,
    /// - every capsule that changed is downstream of the required ones,
    /// - every required capsule that stays in the graph is rebuilt,
    /// - in a graph without cycles, every dependent of a capsule that changed that stays in
    ///   the graph is rebuilt (after the capsules it depends on).
    pub open spec fn propagates(&self, new: &Self, ids: Set<u128>, changed: Set<u128>) -> bool {
        &&& new.at_rest()
        &&& forall|x: u128| #[trigger] new.build_count(x) >= self.build_count(x)
        &&& forall|x: u128| #[trigger]
            ids.contains(x) && new.nodes@.contains_key(x) ==> new.build_count(x) > self.build_count(x)
        &&& self.acyclic() ==> forall|p: u128, x: u128|
            changed.contains(p) && #[trigger] self.nodes@[p].dependents@.contains(x) && new.nodes@.contains_key(x)
                ==> new.build_count(x) > self.build_count(x)
        &&& forall|x: u128| #[trigger] changed.contains(x) ==> self.downstream(ids, x)
        &&& forall|x: u128| #[trigger]
            self.nodes@.contains_key(x) && !new.nodes@.contains_key(x) ==> changed.contains(x)
                && self.nodes@[x].spec_is_idempotent()
        &&& forall|x: u128| #[trigger]
            changed.contains(x) ==> self.nodes@.contains_key(x) && (ids.contains(x) || exists|p: u128|
                self.nodes@[x].dependencies@.contains(p) && #[trigger] changed.contains(p))
        &&& forall|x: u128| #[trigger]
            self.nodes@.contains_key(x) && !ids.contains(x) && (forall|p: u128|
                self.nodes@[x].dependencies@.contains(p) ==> !#[trigger] changed.contains(p))
                ==> new.untouched(self, x)
        &&& forall|x: u128| #[trigger]
            ids.contains(x) && !self.nodes@[x].spec_is_idempotent() ==> new.nodes@.contains_key(x)
    }

    /// Forcefully rebuilds the capsules with the supplied ids and, in build order, every
    /// capsule downstream of a capsule that changed; idempotent capsules with no
    /// nonidempotent downstream capsules are disposed instead of rebuilt.
    ///
    /// Returns the capsules that changed (were disposed, or were rebuilt into data that
    /// [`Capsule::eq`] did not find equal to their old data).
    #[verifier::spinoff_prover]
    #[verifier::rlimit(60)]
    pub(crate) fn build_capsules_or_panic(&mut self, ids: &HashSet<u128>) -> (r: (HashSet<u128>, Ghost<Set<u128>>))
        requires
            old(self).at_rest(),
            forall|x: u128| #[trigger] ids@.contains(x) ==> old(self).nodes@.contains_key(x),
        ensures
            old(self).propagates(final(self), ids@, r.0@),
            old(self).collects_garbage(final(self), ids@, r.0@, r.1@),
            old(self).rebuilt_data(final(self), r.1@),
    {
        let ghost o = *old(self);
        let build_order_stack = self.create_build_order_stack(ids);
        proof {
            assert forall|k: int| 0 <= k < build_order_stack@.len() implies o.nodes@.contains_key(
                #[trigger] build_order_stack@[k],
            ) && o.nodes@[build_order_stack@[k]].side_effect is Some by {
                assert(build_order_stack@.contains(build_order_stack@[k]));
            }
        }
        let disposable_nodes = self.get_disposable_nodes_from_build_order_stack(&build_order_stack);
        let ghost order = build_order_stack@;
        let ghost dis = disposable_nodes@;
        proof {
            lemma_disposable_closed(&o, order, order.len());
            assert(order.take(order.len() as int) =~= order);
        }
        let mut changed_nodes: HashSet<u128> = HashSet::new();
        let ghost mut skipped: Set<u128> = Set::empty();
        let ghost mut disposed: Set<u128> = Set::empty();
        let ghost mut starts: Map<u128, ContainerWriteTxn<C, C::Data, C::State>> = Map::empty();
        let n = build_order_stack.len();
        let mut i = n;
        while i > 0
            invariant
                n == order.len(),
                build_order_stack@ == order,
                disposable_nodes@ == dis,
                i <= n,
                o.at_rest(),
                order.no_duplicates(),
                forall|x: u128| #[trigger] order.contains(x) ==> o.nodes@.contains_key(x),
                forall|x: u128| #[trigger] ids@.contains(x) ==> order.contains(x),
                forall|x: u128| #[trigger] order.contains(x) ==> o.downstream(ids@, x),
                o.dependents_first(order),
                forall|x: u128, d: u128|
                    order.contains(x) && #[trigger] o.nodes@[x].dependents@.contains(d) ==> order.contains(d),
                forall|x: u128| #[trigger] self.build_count(x) >= o.build_count(x),
                forall|k: int|
                    i <= k < n && self.nodes@.contains_key(#[trigger] order[k]) && (ids@.contains(order[k])
                        || exists|kp: int|
                        k < kp < n && o.nodes@[order[k]].dependencies@.contains(order[kp])
                            && changed_nodes@.contains(order[kp])) ==> self.build_count(order[k])
                        > o.build_count(order[k]),
                forall|x: u128| #[trigger]
                    dis.contains(x) ==> o.nodes@[x].spec_is_idempotent(),
                self.at_rest(),
                forall|k: int| 0 <= k < i ==> #[trigger] self.untouched(&o, order[k]),
                forall|x: u128| #[trigger]
                    o.nodes@.contains_key(x) && !order.contains(x) ==> self.untouched(&o, x),
                forall|x: u128| #[trigger]
                    o.nodes@.contains_key(x) && !self.nodes@.contains_key(x) ==> changed_nodes@.contains(
                        x,
                    ) && dis.contains(x) && disposed.contains(x),
                forall|x: u128| #[trigger]
                    changed_nodes@.contains(x) ==> order.subrange(i as int, n as int).contains(x)
                        && !skipped.contains(x),
                forall|x: u128| #[trigger] skipped.contains(x) ==> self.untouched(&o, x),
                forall|x: u128| #[trigger]
                    skipped.contains(x) ==> order.subrange(i as int, n as int).contains(x),
                forall|k: int|
                    i <= k < n ==> skipped.contains(#[trigger] order[k]) || ids@.contains(order[k])
                        || exists|p: u128|
                        o.nodes@[order[k]].dependencies@.contains(p) && #[trigger] changed_nodes@.contains(p),
                forall|x: u128| #[trigger]
                    changed_nodes@.contains(x) ==> ids@.contains(x) || exists|p: u128|
                        o.nodes@[x].dependencies@.contains(p) && #[trigger] changed_nodes@.contains(p),
                forall|k: int|
                    i <= k < n && ids@.contains(#[trigger] order[k]) && !dis.contains(order[k])
                        ==> self.nodes@.contains_key(order[k]),
                forall|x: u128| #[trigger]
                    disposed.contains(x) ==> changed_nodes@.contains(x) && dis.contains(x),
                forall|x: u128| #[trigger]
                    changed_nodes@.contains(x) && !disposed.contains(x) ==> self.nodes@.contains_key(x)
                        && !C::spec_eq(&o.data@[x], &self.data@[x]) && self.build_count(x) > o.build_count(x),
                forall|k: int|
                    i <= k < n && !changed_nodes@.contains(#[trigger] order[k]) && !skipped.contains(order[k])
                        ==> self.nodes@.contains_key(order[k]) && C::spec_eq(&o.data@[order[k]], &self.data@[order[k]]),
                forall|x: u128|
                    o.nodes@.contains_key(x) && !disposed.contains(x) ==> #[trigger] self.build_count(x)
                        <= o.build_count(x) + 1,
                forall|k: int|
                    i <= k < n && !skipped.contains(#[trigger] order[k]) && !disposed.contains(order[k])
                        ==> built_data(
                        o.nodes@[order[k]].capsule->0,
                        order[k],
                        o.nodes@[order[k]].side_effect->0,
                        starts[order[k]],
                        self.data@[order[k]],
                    ) && (o.acyclic() ==> o.read_final_data(&starts[order[k]], &*self, disposed, order[k])),
                forall|x: u128| #[trigger]
                    disposed.contains(x) && self.nodes@.contains_key(x) ==> self.build_count(x)
                        > o.build_count(x),
                forall|k: int|
                    i <= k < n && dis.contains(#[trigger] order[k]) && (ids@.contains(order[k])
                        || exists|kp: int|
                        k < kp < n && o.nodes@[order[k]].dependencies@.contains(order[kp])
                            && changed_nodes@.contains(order[kp])) ==> disposed.contains(order[k]),
            decreases i,
        {
            i = i - 1;
            let curr_id = build_order_stack[i];
            let ghost before = *self;
            let ghost ch = changed_nodes@;
            let ghost disp0 = disposed;
            proof {
                assert(self.untouched(&o, order[i as int]));
                assert(order.subrange(i as int, n as int) =~= order.subrange(i + 1, n as int).insert(0, curr_id));
                assert(!order.subrange(i + 1, n as int).contains(curr_id)) by {
                    if order.subrange(i + 1, n as int).contains(curr_id) {
                        let k = choose|k: int| 0 <= k < n - i - 1 && #[trigger] order.subrange(i + 1, n as int)[k] == curr_id;
                        assert(order[i + 1 + k] == order[i as int]);
                    }
                }
            }
            let node = self.nodes.get(&curr_id).unwrap();
            let build_is_required = ids.contains(&curr_id);
            let deps = set_to_vec(&node.dependencies);
            let nd = deps.len();
            let mut have_deps_changed = false;
            for j in 0..nd
                invariant
                    nd == deps@.len(),
                    have_deps_changed == exists|j2: int|
                        0 <= j2 < j && changed_nodes@.contains(#[trigger] deps@[j2]),
            {
                if changed_nodes.contains(&deps[j]) {
                    have_deps_changed = true;
                }
            }
            proof {
                assert(have_deps_changed == exists|p: u128|
                    o.nodes@[curr_id].dependencies@.contains(p) && #[trigger] changed_nodes@.contains(p)) by {
                    if have_deps_changed {
                        let j2 = choose|j2: int| 0 <= j2 < nd && changed_nodes@.contains(#[trigger] deps@[j2]);
                        assert(deps@.to_set().contains(deps@[j2]));
                        assert(o.nodes@[curr_id].dependencies@.contains(deps@[j2]));
                    } else {
                        assert forall|p: u128| o.nodes@[curr_id].dependencies@.contains(p) implies !#[trigger] changed_nodes@.contains(p) by {
                            assert(deps@.to_set().contains(p));
                            let j2 = choose|j2: int| 0 <= j2 < nd && deps@[j2] == p;
                            if changed_nodes@.contains(p) {
                                assert(changed_nodes@.contains(deps@[j2]));
                            }
                        }
                    }
                }
            }
            if !build_is_required && !have_deps_changed {
                proof {
                    skipped = skipped.insert(curr_id);
                }
            } else if disposable_nodes.contains(&curr_id) {
                self.dispose_single_node(curr_id);
                changed_nodes.insert(curr_id);
                proof {
                    disposed = disposed.insert(curr_id);
                    assert forall|k: int|
                        i <= k < n && !skipped.contains(#[trigger] order[k]) && !disposed.contains(order[k])
                        implies built_data(
                        o.nodes@[order[k]].capsule->0,
                        order[k],
                        o.nodes@[order[k]].side_effect->0,
                        starts[order[k]],
                        self.data@[order[k]],
                    ) && (o.acyclic() ==> o.read_final_data(&starts[order[k]], &*self, disposed, order[k])) by {
                        assert(k != i);
                        assert(self.data@[order[k]] == before.data@[order[k]]);
                        if o.acyclic() {
                            assert forall|p: u128|
                                o.nodes@.contains_key(p) && #[trigger] self.nodes@.contains_key(p) && !disposed.contains(p)
                                    && p != order[i as int] implies before.nodes@.contains_key(p) && !disp0.contains(p)
                                && self.data@[p] == before.data@[p] by {}
                            lemma_final_data_kept(&o, order, i as int, k, &starts[order[k]], &before, &*self, disp0, disposed);
                        }
                    }
                    assert forall|x: u128|
                        o.nodes@.contains_key(x) && !disposed.contains(x) implies #[trigger] self.build_count(x)
                            <= o.build_count(x) + 1 by {
                        assert(self.build_count(x) == before.build_count(x));
                    }
                    assert forall|x: u128| #[trigger] skipped.contains(x) implies self.untouched(&o, x) by {
                        assert(before.untouched(&o, x));
                        assert(x != curr_id);
                    }
                    assert forall|k: int| 0 <= k < i implies #[trigger] self.untouched(&o, order[k]) by {
                        assert(before.untouched(&o, order[k]));
                        assert(order[k] != order[i as int]);
                    }
                    assert forall|x: u128| #[trigger]
                        o.nodes@.contains_key(x) && !order.contains(x) implies self.untouched(&o, x) by {
                        assert(before.untouched(&o, x));
                        assert(order[i as int] == curr_id);
                    }
                    assert forall|x: u128| #[trigger]
                        self.nodes@.contains_key(x) implies self.nodes@[x].ready() && self.data@.contains_key(x) by {
                        assert(before.nodes@.contains_key(x));
                    }
                }
            } else {
                let did_node_change = self.build_single_node(curr_id);
                if did_node_change {
                    changed_nodes.insert(curr_id);
                }
                proof {
                    let h = choose|h: CapsuleHandle<'_, C>|
                        #[trigger] call_ensures(C::build, (&before.nodes@[curr_id].capsule->0, h), self.data@[curr_id])
                            && h.get.id.spec_raw() == curr_id && !h.get.mocked
                            && *h.register.side_effect == before.nodes@[curr_id].side_effect->0
                            && before.build_start(&*h.get.txn, curr_id)
                            && (*final(h.get.txn)).build_end(
                            &*self,
                            curr_id,
                            before.nodes@[curr_id].capsule->0,
                            *final(h.register.side_effect),
                            self.data@[curr_id],
                        );
                    assert(built_data(
                        o.nodes@[curr_id].capsule->0,
                        curr_id,
                        o.nodes@[curr_id].side_effect->0,
                        *h.get.txn,
                        self.data@[curr_id],
                    ) && before.build_start(&*h.get.txn, curr_id));
                    let start = choose|start: ContainerWriteTxn<C, C::Data, C::State>|
                        #[trigger] built_data(
                            o.nodes@[curr_id].capsule->0,
                            curr_id,
                            o.nodes@[curr_id].side_effect->0,
                            start,
                            self.data@[curr_id],
                        ) && before.build_start(&start, curr_id);
                    starts = starts.insert(curr_id, start);
                    assert forall|k: int|
                        i <= k < n && !skipped.contains(#[trigger] order[k]) && !disposed.contains(order[k])
                        implies built_data(
                        o.nodes@[order[k]].capsule->0,
                        order[k],
                        o.nodes@[order[k]].side_effect->0,
                        starts[order[k]],
                        self.data@[order[k]],
                    ) && (o.acyclic() ==> o.read_final_data(&starts[order[k]], &*self, disposed, order[k])) by {
                        if k == i {
                            if o.acyclic() {
                                reveal(ContainerWriteTxn::read_final_data);
                                assert forall|p: u128|
                                    o.nodes@.contains_key(p) && #[trigger] o.nodes@[p].dependents@.contains(curr_id)
                                        && self.nodes@.contains_key(p) && !disposed.contains(p) implies start.data@.contains_key(p)
                                    && start.data@[p] == self.data@[p] by {
                                    assert(o.leads_within(curr_id, curr_id, 0));
                                    assert(p != curr_id);
                                    assert(before.nodes@.contains_key(p));
                                    assert(before.data@.contains_key(p));
                                }
                            }
                        } else {
                            assert(order[k] != curr_id);
                            if o.acyclic() {
                                assert forall|p: u128|
                                    o.nodes@.contains_key(p) && #[trigger] self.nodes@.contains_key(p) && !disposed.contains(p)
                                        && p != order[i as int] implies before.nodes@.contains_key(p) && !disposed.contains(p)
                                    && self.data@[p] == before.data@[p] by {
                                    assert(before.data@.contains_key(p));
                                }
                                lemma_final_data_kept(&o, order, i as int, k, &starts[order[k]], &before, &*self, disposed, disposed);
                            }
                        }
                    }
                    assert forall|x: u128|
                        o.nodes@.contains_key(x) && !disposed.contains(x) implies #[trigger] self.build_count(x)
                            <= o.build_count(x) + 1 by {
                        assert(before.build_count(x) <= o.build_count(x) + 1);
                        if x == curr_id {
                            assert(before.untouched(&o, x));
                        } else if before.nodes@.contains_key(x) {
                            assert(self.build_count(x) == before.build_count(x));
                        } else {
                            assert(disp0.contains(x));
                        }
                    }
                    assert forall|x: u128| #[trigger] skipped.contains(x) implies self.untouched(&o, x) by {
                        assert(before.untouched(&o, x));
                        assert(x != curr_id);
                    }
                    assert forall|k: int| 0 <= k < i implies #[trigger] self.untouched(&o, order[k]) by {
                        assert(before.untouched(&o, order[k]));
                        assert(order[k] != order[i as int]);
                    }
                    assert forall|x: u128| #[trigger]
                        o.nodes@.contains_key(x) && !order.contains(x) implies self.untouched(&o, x) by {
                        assert(before.untouched(&o, x));
                        assert(order[i as int] == curr_id);
                    }
                    assert forall|x: u128| #[trigger]
                        self.nodes@.contains_key(x) implies self.nodes@[x].ready() && self.data@.contains_key(x) by {
                        if before.nodes@.contains_key(x) && x != curr_id {
                            assert(before.nodes@[x].ready());
                        }
                    }
                    assert forall|x: u128| #[trigger]
                        o.nodes@.contains_key(x) && !self.nodes@.contains_key(x) implies changed_nodes@.contains(x)
                            && dis.contains(x) by {
                        assert(!before.nodes@.contains_key(x));
                    }
                }
            }
            proof {
                assert forall|k: int| i <= k < n implies skipped.contains(#[trigger] order[k]) || ids@.contains(order[k])
                    || exists|p: u128|
                    o.nodes@[order[k]].dependencies@.contains(p) && #[trigger] changed_nodes@.contains(p) by {
                    if k > i {
                        if !skipped.contains(order[k]) && !ids@.contains(order[k]) {
                            let p = choose|p: u128|
                                o.nodes@[order[k]].dependencies@.contains(p) && #[trigger] ch.contains(p);
                            assert(changed_nodes@.contains(p));
                        }
                    } else {
                        if !skipped.contains(order[k]) && !ids@.contains(order[k]) {
                            let p = choose|p: u128|
                                o.nodes@[curr_id].dependencies@.contains(p) && #[trigger] ch.contains(p);
                            assert(changed_nodes@.contains(p));
                        }
                    }
                }
                assert forall|x: u128| #[trigger]
                    changed_nodes@.contains(x) implies ids@.contains(x) || exists|p: u128|
                        o.nodes@[x].dependencies@.contains(p) && #[trigger] changed_nodes@.contains(p) by {
                    if ch.contains(x) {
                        if !ids@.contains(x) {
                            let p = choose|p: u128|
                                o.nodes@[x].dependencies@.contains(p) && #[trigger] ch.contains(p);
                            assert(changed_nodes@.contains(p));
                        }
                    } else {
                        assert(x == curr_id);
                        if !ids@.contains(x) {
                            let p = choose|p: u128|
                                o.nodes@[curr_id].dependencies@.contains(p) && #[trigger] ch.contains(p);
                            assert(changed_nodes@.contains(p));
                        }
                    }
                }
                assert forall|x: u128| #[trigger]
                    changed_nodes@.contains(x) implies order.subrange(i as int, n as int).contains(x)
                        && !skipped.contains(x) by {
                    if ch.contains(x) {
                        assert(order.subrange(i + 1, n as int).contains(x));
                        let k = choose|k: int| 0 <= k < n - i - 1 && #[trigger] order.subrange(i + 1, n as int)[k] == x;
                        assert(order.subrange(i as int, n as int)[k + 1] == x);
                    } else {
                        assert(order.subrange(i as int, n as int)[0] == x);
                    }
                }
                assert forall|x: u128| #[trigger]
                    skipped.contains(x) implies order.subrange(i as int, n as int).contains(x) by {
                    if x == curr_id {
                        assert(order.subrange(i as int, n as int)[0] == x);
                    } else {
                        let k = choose|k: int| 0 <= k < n - i - 1 && #[trigger] order.subrange(i + 1, n as int)[k] == x;
                        assert(order.subrange(i as int, n as int)[k + 1] == x);
                    }
                }
                assert forall|x: u128| #[trigger] self.build_count(x) >= o.build_count(x) by {
                    assert(before.build_count(x) >= o.build_count(x));
                }
                assert forall|k: int|
                    i <= k < n && self.nodes@.contains_key(#[trigger] order[k]) && (ids@.contains(order[k])
                        || exists|kp: int|
                        k < kp < n && o.nodes@[order[k]].dependencies@.contains(order[kp])
                            && changed_nodes@.contains(order[kp])) implies self.build_count(order[k])
                        > o.build_count(order[k]) by {
                    if k == i {
                        if !ids@.contains(curr_id) {
                            let kp = choose|kp: int|
                                k < kp < n && o.nodes@[order[k]].dependencies@.contains(order[kp])
                                    && changed_nodes@.contains(order[kp]);
                            assert(order[kp] != order[k]);
                            assert(ch.contains(order[kp]));
                            assert(have_deps_changed);
                        }
                        assert(before.build_count(curr_id) >= o.build_count(curr_id));
                    } else {
                        assert(order[k] != curr_id);
                        if before.nodes@.contains_key(order[k]) {
                            if !ids@.contains(order[k]) {
                                let kp = choose|kp: int|
                                    k < kp < n && o.nodes@[order[k]].dependencies@.contains(order[kp])
                                        && changed_nodes@.contains(order[kp]);
                                assert(order[kp] != curr_id);
                                assert(ch.contains(order[kp]));
                            }
                            assert(before.build_count(order[k]) > o.build_count(order[k]));
                        } else {
                            assert(before.build_count(order[k]) >= o.build_count(order[k]));
                        }
                    }
                }
                assert forall|x: u128| #[trigger]
                    disposed.contains(x) && self.nodes@.contains_key(x) implies self.build_count(x)
                        > o.build_count(x) by {
                    if before.nodes@.contains_key(x) {
                        assert(before.build_count(x) > o.build_count(x));
                    } else {
                        assert(before.build_count(x) >= o.build_count(x));
                    }
                }
                assert forall|k: int|
                    i <= k < n && dis.contains(#[trigger] order[k]) && (ids@.contains(order[k])
                        || exists|kp: int|
                        k < kp < n && o.nodes@[order[k]].dependencies@.contains(order[kp])
                            && changed_nodes@.contains(order[kp])) implies disposed.contains(order[k]) by {
                    if k == i {
                        if !ids@.contains(curr_id) {
                            let kp = choose|kp: int|
                                k < kp < n && o.nodes@[order[k]].dependencies@.contains(order[kp])
                                    && changed_nodes@.contains(order[kp]);
                            assert(order[kp] != order[k]);
                            assert(ch.contains(order[kp]));
                            assert(have_deps_changed);
                        }
                    } else {
                        assert(order[k] != curr_id);
                        if !ids@.contains(order[k]) {
                            let kp = choose|kp: int|
                                k < kp < n && o.nodes@[order[k]].dependencies@.contains(order[kp])
                                    && changed_nodes@.contains(order[kp]);
                            assert(order[kp] != curr_id);
                            assert(ch.contains(order[kp]));
                        }
                        assert(disp0.contains(order[k]));
                    }
                }
            }
        }
        proof {
            assert(order.subrange(0, n as int) =~= order);
            assert forall|x: u128| #[trigger]
                o.nodes@.contains_key(x) && !ids@.contains(x) && (forall|p: u128|
                    o.nodes@[x].dependencies@.contains(p) ==> !#[trigger] changed_nodes@.contains(p))
                    implies self.untouched(&o, x) by {
                if order.contains(x) {
                    let k = choose|k: int| 0 <= k < n && #[trigger] order[k] == x;
                    if !skipped.contains(order[k]) {
                        let p = choose|p: u128|
                            o.nodes@[order[k]].dependencies@.contains(p) && #[trigger] changed_nodes@.contains(p);
                    }
                }
            }
            assert forall|x: u128| #[trigger]
                changed_nodes@.contains(x) implies o.nodes@.contains_key(x) && o.downstream(ids@, x) by {
                assert(order.subrange(0, n as int).contains(x));
            }
            assert forall|x: u128| #[trigger]
                ids@.contains(x) && !o.nodes@[x].spec_is_idempotent() implies self.nodes@.contains_key(x) by {
                let k = choose|k: int| 0 <= k < n && #[trigger] order[k] == x;
                assert(order[k] == x);
            }
            assert forall|x: u128| #[trigger]
                disposed.contains(x) implies changed_nodes@.contains(x) && o.nodes@.contains_key(x)
                    && o.nodes@[x].spec_is_idempotent() by {
                assert(order.take(n as int).contains(x));
            }
            if o.acyclic() {
                assert forall|x: u128|
                    o.nodes@.contains_key(x) && #[trigger] o.only_idempotent_downstream(x) && (ids@.contains(x)
                        || exists|p: u128| changed_nodes@.contains(p) && o.nodes@[p].dependents@.contains(x))
                    implies disposed.contains(x) by {
                    if !ids@.contains(x) {
                        let p = choose|p: u128| changed_nodes@.contains(p) && o.nodes@[p].dependents@.contains(x);
                        assert(order.subrange(0, n as int).contains(p));
                    }
                    assert(order.contains(x));
                    let k = choose|k: int| 0 <= k < n && order[k] == x;
                    lemma_disposable_complete(&o, order, k);
                    lemma_disposable_grows(&o, order, (k + 1) as nat, n as nat);
                    if !ids@.contains(x) {
                        let p = choose|p: u128| changed_nodes@.contains(p) && o.nodes@[p].dependents@.contains(x);
                        assert(order.subrange(0, n as int).contains(p));
                        let kp = choose|kp: int| 0 <= kp < n && order[kp] == p;
                        assert(!o.leads_to(x, p));
                        let j = choose|j: int| 0 <= j < kp && order[j] == x;
                        assert(j == k);
                        assert(o.nodes@[x].dependencies@.contains(p));
                        assert(k < kp < n && o.nodes@[order[k]].dependencies@.contains(order[kp])
                            && changed_nodes@.contains(order[kp]));
                    }
                }
            }
        }
        (changed_nodes, Ghost(disposed))
    }

}

/// Every disposable node is an idempotent node of the order whose dependents are all
/// disposable too.
pub proof fn lemma_disposable_closed<C: Capsule>(
    t: &ContainerWriteTxn<C, C::Data, C::State>,
    order: Seq<u128>,
    i: nat,
)
    requires
        i <= order.len(),
    ensures
        forall|x: u128| #[trigger]
            t.disposable_upto(order, i).contains(x) ==> order.take(i as int).contains(x)
                && t.nodes@[x].spec_is_idempotent() && t.nodes@[x].dependents@.subset_of(
                t.disposable_upto(order, i),
            ),
    decreases i,
{
    if i > 0 {
        lemma_disposable_closed(t, order, (i - 1) as nat);
        let prev = t.disposable_upto(order, (i - 1) as nat);
        assert forall|x: u128| #[trigger]
            t.disposable_upto(order, i).contains(x) implies order.take(i as int).contains(x)
                && t.nodes@[x].spec_is_idempotent() && t.nodes@[x].dependents@.subset_of(
                t.disposable_upto(order, i),
            ) by {
            if prev.contains(x) {
                let pre = order.take(i - 1);
                let k = choose|k: int| 0 <= k < pre.len() && #[trigger] pre[k] == x;
                assert(order.take(i as int)[k] == x);
            } else {
                assert(order.take(i as int)[i - 1] == x);
            }
        }
    }
}

/// Rebuilding from a graph that differs from another only in the side effect states of
/// required capsules (and not in which capsules are idempotent) propagates from both.
pub proof fn lemma_propagates_from_equiv<C: Capsule>(
    a: &ContainerWriteTxn<C, C::Data, C::State>,
    b: &ContainerWriteTxn<C, C::Data, C::State>,
    new: &ContainerWriteTxn<C, C::Data, C::State>,
    ids: Set<u128>,
    changed: Set<u128>,
)
    requires
        b.propagates(new, ids, changed),
        forall|x: u128| #[trigger] ids.contains(x) ==> a.nodes@.contains_key(x),
        a.wf(),
        a.data@ == b.data@,
        a.builds == b.builds,
        a.nodes@.dom() == b.nodes@.dom(),
        forall|x: u128| #[trigger]
            a.nodes@.contains_key(x) ==> a.nodes@[x].capsule == b.nodes@[x].capsule
                && a.nodes@[x].dependencies@ == b.nodes@[x].dependencies@
                && a.nodes@[x].dependents@ == b.nodes@[x].dependents@
                && a.nodes@[x].spec_is_idempotent() == b.nodes@[x].spec_is_idempotent()
                && (!ids.contains(x) ==> a.nodes@[x].side_effect == b.nodes@[x].side_effect),
    ensures
        a.propagates(new, ids, changed),
{
    if a.acyclic() {
        assert forall|x: u128, d: u128|
            b.nodes@.contains_key(x) && #[trigger] b.nodes@[x].dependents@.contains(d) implies !b.leads_to(d, x) by {
            assert(a.nodes@[x].dependents@.contains(d));
            if b.leads_to(d, x) {
                let n = choose|n: nat| b.leads_within(d, x, n);
                lemma_leads_within_equiv(a, b, d, x, n);
            }
        }
    }
    assert forall|x: u128| #[trigger] changed.contains(x) implies a.downstream(ids, x) by {
        let n = choose|n: nat| b.depends_within(ids, x, n);
        lemma_depends_within_equiv(a, b, ids, x, n);
    }
    assert forall|x: u128| #[trigger]
        a.nodes@.contains_key(x) && !ids.contains(x) && (forall|p: u128|
            a.nodes@[x].dependencies@.contains(p) ==> !#[trigger] changed.contains(p))
            implies new.untouched(a, x) by {
        assert(new.untouched(b, x));
    }
    assert forall|x: u128| #[trigger]
        changed.contains(x) implies a.nodes@.contains_key(x) && (ids.contains(x) || exists|p: u128|
            a.nodes@[x].dependencies@.contains(p) && #[trigger] changed.contains(p)) by {
        assert(b.nodes@.contains_key(x));
    }
    assert forall|x: u128| #[trigger]
        ids.contains(x) && !a.nodes@[x].spec_is_idempotent() implies new.nodes@.contains_key(x) by {
        if !a.nodes@.contains_key(x) {
            assert(!b.nodes@.contains_key(x));
        }
    }
}

/// Garbage collection from a graph that differs from another only in the side effect
/// states of required capsules (and not in which capsules are idempotent) is garbage
/// collection from both.
pub proof fn lemma_collects_garbage_from_equiv<C: Capsule>(
    a: &ContainerWriteTxn<C, C::Data, C::State>,
    b: &ContainerWriteTxn<C, C::Data, C::State>,
    new: &ContainerWriteTxn<C, C::Data, C::State>,
    ids: Set<u128>,
    changed: Set<u128>,
    disposed: Set<u128>,
)
    requires
        b.propagates(new, ids, changed),
        b.collects_garbage(new, ids, changed, disposed),
        a.wf(),
        a.data@ == b.data@,
        a.builds == b.builds,
        a.nodes@.dom() == b.nodes@.dom(),
        forall|x: u128| #[trigger]
            a.nodes@.contains_key(x) ==> a.nodes@[x].dependents@ == b.nodes@[x].dependents@
                && a.nodes@[x].spec_is_idempotent() == b.nodes@[x].spec_is_idempotent(),
    ensures
        a.collects_garbage(new, ids, changed, disposed),
{
    if a.acyclic() {
        assert forall|x: u128, d: u128|
            b.nodes@.contains_key(x) && #[trigger] b.nodes@[x].dependents@.contains(d) implies !b.leads_to(d, x) by {
            assert(a.nodes@[x].dependents@.contains(d));
            if b.leads_to(d, x) {
                let n = choose|n: nat| b.leads_within(d, x, n);
                lemma_leads_within_equiv(a, b, d, x, n);
            }
        }
        assert forall|x: u128|
            a.nodes@.contains_key(x) && #[trigger] a.only_idempotent_downstream(x) && (ids.contains(x)
                || exists|p: u128| changed.contains(p) && a.nodes@[p].dependents@.contains(x))
                implies disposed.contains(x) by {
            assert forall|y: u128| #[trigger] b.leads_to(x, y) implies b.nodes@.contains_key(y)
                && b.nodes@[y].spec_is_idempotent() by {
                let n = choose|n: nat| b.leads_within(x, y, n);
                lemma_leads_within_equiv(a, b, x, y, n);
                assert(a.leads_to(x, y));
            }
            assert(b.only_idempotent_downstream(x));
            if !ids.contains(x) {
                let p = choose|p: u128| changed.contains(p) && a.nodes@[p].dependents@.contains(x);
                assert(b.nodes@.contains_key(p));
                assert(b.nodes@[p].dependents@.contains(x));
            }
        }
    }
}

/// A well-formed txn extends itself.
pub proof fn lemma_grows_into_refl<C, D, S>(t: &ContainerWriteTxn<C, D, S>)
    requires
        t.wf(),
    ensures
        t.grows_into(t),
{
}

/// Extending is transitive.
pub proof fn lemma_grows_into_trans<C, D, S>(
    a: &ContainerWriteTxn<C, D, S>,
    b: &ContainerWriteTxn<C, D, S>,
    c: &ContainerWriteTxn<C, D, S>,
)
    requires
        a.grows_into(b),
        b.grows_into(c),
    ensures
        a.grows_into(c),
{
    assert forall|x: u128| #[trigger] a.nodes@.contains_key(x) implies c.nodes@.contains_key(x)
        && c.nodes@[x].capsule == a.nodes@[x].capsule && c.nodes@[x].side_effect
        == a.nodes@[x].side_effect && a.nodes@[x].dependencies@.subset_of(
        c.nodes@[x].dependencies@,
    ) && a.nodes@[x].dependents@.subset_of(c.nodes@[x].dependents@) by {
        assert(b.nodes@.contains_key(x));
    }
    assert forall|x: u128| #[trigger]
        a.nodes@.contains_key(x) && a.nodes@[x].capsule is Some implies c.nodes@[x].dependencies@
            == a.nodes@[x].dependencies@ by {
        assert(b.nodes@.contains_key(x));
    }
    assert forall|x: u128| #[trigger]
        c.nodes@.contains_key(x) && !a.nodes@.contains_key(x) implies c.nodes@[x].ready()
            && c.data@.contains_key(x) by {
        if b.nodes@.contains_key(x) {
            assert(b.data@.contains_key(x));
        }
    }
    assert forall|x: u128| #[trigger] a.data@.contains_key(x) implies c.data@.contains_key(x)
        && c.data@[x] == a.data@[x] by {
        assert(b.data@.contains_key(x));
    }
    assert forall|x: u128| #[trigger]
        c.data@.contains_key(x) && a.nodes@.contains_key(x) implies a.data@.contains_key(x) by {
        assert(b.nodes@.contains_key(x));
    }
}

/// A capsule of the graph that read a capsule downstream of `ids` is downstream of `ids`.
pub proof fn lemma_downstream_step<C, D, S>(t: &ContainerWriteTxn<C, D, S>, ids: Set<u128>, p: u128, x: u128)
    requires
        t.downstream(ids, p),
        t.nodes@.contains_key(x),
        t.nodes@[x].dependencies@.contains(p),
    ensures
        t.downstream(ids, x),
{
    let n = choose|n: nat| t.depends_within(ids, p, n);
    assert(t.depends_within(ids, x, n + 1));
}

/// Two graphs with the same capsules, each with the same dependencies, agree on what
/// depends on what.
pub proof fn lemma_depends_within_equiv<C, D, S>(
    a: &ContainerWriteTxn<C, D, S>,
    b: &ContainerWriteTxn<C, D, S>,
    ids: Set<u128>,
    x: u128,
    n: nat,
)
    requires
        a.nodes@.dom() == b.nodes@.dom(),
        forall|y: u128| #[trigger]
            a.nodes@.contains_key(y) ==> a.nodes@[y].dependencies@ == b.nodes@[y].dependencies@,
    ensures
        a.depends_within(ids, x, n) == b.depends_within(ids, x, n),
    decreases n,
{
    if n > 0 {
        assert forall|p: u128| #[trigger] a.nodes@[x].dependencies@.contains(p) && a.nodes@.contains_key(x)
            implies a.depends_within(ids, p, (n - 1) as nat) == b.depends_within(ids, p, (n - 1) as nat) by {
            lemma_depends_within_equiv(a, b, ids, p, (n - 1) as nat);
        }
        if a.nodes@.contains_key(x) {
            assert(a.nodes@[x].dependencies@ == b.nodes@[x].dependencies@);
            if a.depends_within(ids, x, n) && !ids.contains(x) {
                let p = choose|p: u128|
                    #[trigger] a.nodes@[x].dependencies@.contains(p) && a.depends_within(ids, p, (n - 1) as nat);
                assert(b.nodes@[x].dependencies@.contains(p));
            }
            if b.depends_within(ids, x, n) && !ids.contains(x) {
                let p = choose|p: u128|
                    #[trigger] b.nodes@[x].dependencies@.contains(p) && b.depends_within(ids, p, (n - 1) as nat);
                assert(a.nodes@[x].dependencies@.contains(p));
            }
        }
    }
}

/// A path to `p` followed by a dependent link from `p` to `q` is a path to `q`.
pub proof fn lemma_leads_within_step<C, D, S>(t: &ContainerWriteTxn<C, D, S>, x: u128, p: u128, q: u128, n: nat)
    requires
        t.leads_within(x, p, n),
        t.nodes@[p].dependents@.contains(q),
    ensures
        t.leads_within(x, q, n + 1),
    decreases n,
{
    if x == p {
        assert(t.leads_within(q, q, n));
    } else {
        let z = choose|z: u128|
            #[trigger] t.nodes@[x].dependents@.contains(z) && t.leads_within(z, p, (n - 1) as nat);
        lemma_leads_within_step(t, z, p, q, (n - 1) as nat);
    }
}

/// A path to `p` followed by a dependent link from `p` to `q` is a path to `q`.
pub proof fn lemma_leads_to_step<C, D, S>(t: &ContainerWriteTxn<C, D, S>, x: u128, p: u128, q: u128)
    requires
        t.leads_to(x, p),
        t.nodes@[p].dependents@.contains(q),
    ensures
        t.leads_to(x, q),
{
    let n = choose|n: nat| t.leads_within(x, p, n);
    lemma_leads_within_step(t, x, p, q, n);
}

/// A stack of start entries only is a valid depth-first stack.
pub proof fn lemma_dfs_stack_start<C, D, S>(g: &ContainerWriteTxn<C, D, S>, t: Seq<(bool, u128)>, vis: Set<u128>)
    requires
        forall|k: int| 0 <= k < t.len() ==> !(#[trigger] t[k]).0,
    ensures
        g.dfs_stack_ok(t, vis),
{
}

/// Dropping a waiting entry whose node was visited keeps the stack valid.
pub proof fn lemma_dfs_stack_skip<C, D, S>(g: &ContainerWriteTxn<C, D, S>, t: Seq<(bool, u128)>, vis: Set<u128>)
    requires
        g.dfs_stack_ok(t, vis),
        t.len() > 0,
        !t.last().0,
        vis.contains(t.last().1),
    ensures
        g.dfs_stack_ok(t.drop_last(), vis),
{
    let t0 = t.drop_last();
    assert forall|k: int, d: u128|
        0 <= k < t0.len() && t0[k].0 && #[trigger] g.nodes@[t0[k].1].dependents@.contains(d)
        implies vis.contains(d) || exists|j: int| k < j < t0.len() && t0[j] == (false, d) by {
        assert(t[k] == t0[k]);
        if !vis.contains(d) {
            let j = choose|j: int| k < j < t.len() && t[j] == (false, d);
            assert(j != t.len() - 1);
            assert(t0[j] == t[j]);
        }
    }
    assert forall|k1: int, k2: int|
        0 <= k1 < k2 < t0.len() && (#[trigger] t0[k1]).0 && (#[trigger] t0[k2]).0 implies g.leads_to(
        t0[k1].1,
        t0[k2].1,
    ) by {
        assert(t[k1] == t0[k1] && t[k2] == t0[k2]);
    }
    assert forall|j: int| 0 <= j < t0.len() && !(#[trigger] t0[j]).0 implies (forall|k: int|
        0 <= k < j ==> !(#[trigger] t0[k]).0) || exists|k: int|
        0 <= k < j && t0[k].0 && g.nodes@[t0[k].1].dependents@.contains(t0[j].1) && (forall|m: int|
            k < m < j ==> !(#[trigger] t0[m]).0) by {
        assert(t[j] == t0[j]);
        assert forall|k: int| 0 <= k < j implies t0[k] == #[trigger] t[k] by {}
    }
}

/// Finishing the entry on top of the stack keeps the stack valid; the finished node has
/// all its dependents visited, and every entry still being finished leads to it.
pub proof fn lemma_dfs_stack_finish<C, D, S>(g: &ContainerWriteTxn<C, D, S>, t: Seq<(bool, u128)>, vis: Set<u128>)
    requires
        g.dfs_stack_ok(t, vis),
        t.len() > 0,
        t.last().0,
    ensures
        g.dfs_stack_ok(t.drop_last(), vis),
        forall|d: u128| #[trigger] g.nodes@[t.last().1].dependents@.contains(d) ==> vis.contains(d),
        forall|k: int| 0 <= k < t.len() - 1 && (#[trigger] t[k]).0 ==> g.leads_to(t[k].1, t.last().1),
{
    let t0 = t.drop_last();
    let top = t.len() - 1;
    assert forall|d: u128| #[trigger] g.nodes@[t.last().1].dependents@.contains(d) implies vis.contains(d) by {
        assert(g.nodes@[t[top].1].dependents@.contains(d));
    }
    assert forall|k: int| 0 <= k < t.len() - 1 && (#[trigger] t[k]).0 implies g.leads_to(t[k].1, t.last().1) by {
        assert(t[top].0);
    }
    assert forall|k: int, d: u128|
        0 <= k < t0.len() && t0[k].0 && #[trigger] g.nodes@[t0[k].1].dependents@.contains(d)
        implies vis.contains(d) || exists|j: int| k < j < t0.len() && t0[j] == (false, d) by {
        assert(t[k] == t0[k]);
        if !vis.contains(d) {
            let j = choose|j: int| k < j < t.len() && t[j] == (false, d);
            assert(j != top);
            assert(t0[j] == t[j]);
        }
    }
    assert forall|k1: int, k2: int|
        0 <= k1 < k2 < t0.len() && (#[trigger] t0[k1]).0 && (#[trigger] t0[k2]).0 implies g.leads_to(
        t0[k1].1,
        t0[k2].1,
    ) by {
        assert(t[k1] == t0[k1] && t[k2] == t0[k2]);
    }
    assert forall|j: int| 0 <= j < t0.len() && !(#[trigger] t0[j]).0 implies (forall|k: int|
        0 <= k < j ==> !(#[trigger] t0[k]).0) || exists|k: int|
        0 <= k < j && t0[k].0 && g.nodes@[t0[k].1].dependents@.contains(t0[j].1) && (forall|m: int|
            k < m < j ==> !(#[trigger] t0[m]).0) by {
        assert(t[j] == t0[j]);
        assert forall|k: int| 0 <= k < j implies t0[k] == #[trigger] t[k] by {}
    }
}

/// Opening the waiting entry on top of the stack (a node not visited yet) and pushing,
/// above it, waiting entries for its dependents keeps the stack valid, once the node is
/// visited and each of its dependents is visited or waiting above it.
pub proof fn lemma_dfs_stack_open<C, D, S>(
    g: &ContainerWriteTxn<C, D, S>,
    t: Seq<(bool, u128)>,
    vis: Set<u128>,
    tf: Seq<(bool, u128)>,
    vis1: Set<u128>,
)
    requires
        g.dfs_stack_ok(t, vis),
        t.len() > 0,
        !t.last().0,
        vis1 == vis.insert(t.last().1),
        tf.len() >= t.len(),
        forall|k: int| 0 <= k < t.len() - 1 ==> #[trigger] tf[k] == t[k],
        tf[t.len() - 1] == (true, t.last().1),
        forall|k: int|
            t.len() <= k < tf.len() ==> !(#[trigger] tf[k]).0 && g.nodes@[t.last().1].dependents@.contains(
                tf[k].1,
            ),
        forall|d: u128|
            #[trigger] g.nodes@[t.last().1].dependents@.contains(d) ==> vis1.contains(d) || exists|k: int|
                t.len() <= k < tf.len() && tf[k] == (false, d),
    ensures
        g.dfs_stack_ok(tf, vis1),
{
    let top = t.len() - 1;
    let node = t.last().1;
    assert(t[top] == (false, node));
    assert forall|k: int, d: u128|
        0 <= k < tf.len() && tf[k].0 && #[trigger] g.nodes@[tf[k].1].dependents@.contains(d)
        implies vis1.contains(d) || exists|j: int| k < j < tf.len() && tf[j] == (false, d) by {
        if k < top {
            assert(t[k] == tf[k]);
            if !vis.contains(d) {
                let j = choose|j: int| k < j < t.len() && t[j] == (false, d);
                if j == top {
                    assert(d == node);
                } else {
                    assert(tf[j] == t[j]);
                }
            }
        } else {
            assert(k == top);
        }
    }
    assert forall|k1: int, k2: int|
        0 <= k1 < k2 < tf.len() && (#[trigger] tf[k1]).0 && (#[trigger] tf[k2]).0 implies g.leads_to(
        tf[k1].1,
        tf[k2].1,
    ) by {
        assert(k2 <= top);
        assert(tf[k1] == t[k1]);
        if k2 < top {
            assert(tf[k2] == t[k2]);
        } else {
            assert(t[k1].0);
            assert(!(forall|k: int| 0 <= k < top ==> !(#[trigger] t[k]).0));
            let kp = choose|kp: int|
                0 <= kp < top && t[kp].0 && g.nodes@[t[kp].1].dependents@.contains(t[top].1) && (forall|m: int|
                    kp < m < top ==> !(#[trigger] t[m]).0);
            assert(k1 <= kp);
            if k1 < kp {
                assert(g.leads_to(t[k1].1, t[kp].1));
            } else {
                assert(g.leads_within(t[kp].1, t[kp].1, 0));
            }
            lemma_leads_to_step(g, t[k1].1, t[kp].1, node);
        }
    }
    assert forall|j: int| 0 <= j < tf.len() && !(#[trigger] tf[j]).0 implies (forall|k: int|
        0 <= k < j ==> !(#[trigger] tf[k]).0) || exists|k: int|
        0 <= k < j && tf[k].0 && g.nodes@[tf[k].1].dependents@.contains(tf[j].1) && (forall|m: int|
            k < m < j ==> !(#[trigger] tf[m]).0) by {
        if j < top {
            assert(t[j] == tf[j]);
            assert forall|k: int| 0 <= k < j implies tf[k] == #[trigger] t[k] by {}
        } else {
            assert(j > top);
            assert(tf[top].0 && g.nodes@[tf[top].1].dependents@.contains(tf[j].1));
            assert forall|m: int| top < m < j implies !(#[trigger] tf[m]).0 by {}
        }
    }
}

/// Appending a node that comes after each of its dependents (but those leading back to it)
/// keeps an order with dependents first.
pub proof fn lemma_dependents_first_push<C, D, S>(g: &ContainerWriteTxn<C, D, S>, order: Seq<u128>, x: u128)
    requires
        g.dependents_first(order),
        forall|d: u128| #[trigger] g.nodes@[x].dependents@.contains(d) ==> g.leads_to(d, x) || order.contains(d),
    ensures
        g.dependents_first(order.push(x)),
{
    let o1 = order.push(x);
    assert forall|i: int, d: u128|
        0 <= i < o1.len() && #[trigger] g.nodes@[o1[i]].dependents@.contains(d)
        implies g.leads_to(d, o1[i]) || exists|j: int| 0 <= j < i && o1[j] == d by {
        if i < order.len() {
            assert(o1[i] == order[i]);
            if !g.leads_to(d, o1[i]) {
                let j = choose|j: int| 0 <= j < i && order[j] == d;
                assert(o1[j] == d);
            }
        } else {
            if !g.leads_to(d, x) {
                let j = choose|j: int| 0 <= j < order.len() && order[j] == d;
                assert(o1[j] == d);
            }
        }
    }
}

/// Two graphs with the same capsules, each with the same dependents, agree on the paths
/// from a capsule of the graph.
pub proof fn lemma_leads_within_equiv<C, D, S>(
    a: &ContainerWriteTxn<C, D, S>,
    b: &ContainerWriteTxn<C, D, S>,
    x: u128,
    y: u128,
    n: nat,
)
    requires
        a.wf(),
        a.nodes@.dom() == b.nodes@.dom(),
        forall|z: u128| #[trigger]
            a.nodes@.contains_key(z) ==> a.nodes@[z].dependents@ == b.nodes@[z].dependents@,
        a.nodes@.contains_key(x),
    ensures
        a.leads_within(x, y, n) == b.leads_within(x, y, n),
    decreases n,
{
    if n > 0 && x != y {
        assert forall|z: u128| #[trigger] a.nodes@[x].dependents@.contains(z)
            implies a.leads_within(z, y, (n - 1) as nat) == b.leads_within(z, y, (n - 1) as nat) by {
            lemma_leads_within_equiv(a, b, z, y, (n - 1) as nat);
        }
        if b.leads_within(x, y, n) {
            let z = choose|z: u128|
                #[trigger] b.nodes@[x].dependents@.contains(z) && b.leads_within(z, y, (n - 1) as nat);
            assert(a.nodes@[x].dependents@.contains(z));
        }
    }
}

/// Rebuilding nothing leaves a graph at rest as it is.
pub proof fn lemma_propagates_refl<C: Capsule>(t: &ContainerWriteTxn<C, C::Data, C::State>)
    requires
        t.at_rest(),
    ensures
        t.propagates(t, Set::empty(), Set::empty()),
{
}

/// The capsules found disposable along an order only grow along it.
pub proof fn lemma_disposable_grows<C: Capsule>(
    t: &ContainerWriteTxn<C, C::Data, C::State>,
    order: Seq<u128>,
    j: nat,
    k: nat,
)
    requires
        j <= k,
    ensures
        t.disposable_upto(order, j).subset_of(t.disposable_upto(order, k)),
    decreases k - j,
{
    if j < k {
        lemma_disposable_grows(t, order, j, (k - 1) as nat);
    }
}

/// In a graph without cycles, along an order with dependents first and closed under
/// dependents, every capsule that leads to idempotent capsules only is found disposable.
pub proof fn lemma_disposable_complete<C: Capsule>(
    t: &ContainerWriteTxn<C, C::Data, C::State>,
    order: Seq<u128>,
    i: int,
)
    requires
        t.wf(),
        t.acyclic(),
        t.dependents_first(order),
        order.no_duplicates(),
        forall|x: u128| #[trigger] order.contains(x) ==> t.nodes@.contains_key(x),
        forall|x: u128, d: u128|
            order.contains(x) && #[trigger] t.nodes@[x].dependents@.contains(d) ==> order.contains(d),
        0 <= i < order.len(),
        t.only_idempotent_downstream(order[i]),
    ensures
        t.disposable_upto(order, (i + 1) as nat).contains(order[i]),
    decreases i,
{
    let x = order[i];
    assert(t.leads_within(x, x, 0));
    assert(t.leads_to(x, x));
    let prev = t.disposable_upto(order, i as nat);
    assert forall|d: u128| #[trigger] t.nodes@[x].dependents@.contains(d) implies prev.contains(d) by {
        assert(order.contains(x));
        assert(t.nodes@.contains_key(x));
        assert(!t.leads_to(d, x));
        let j = choose|j: int| 0 <= j < i && order[j] == d;
        assert forall|y: u128| #[trigger] t.leads_to(d, y) implies t.nodes@.contains_key(y)
            && t.nodes@[y].spec_is_idempotent() by {
            let n = choose|n: nat| t.leads_within(d, y, n);
            assert(t.leads_within(x, y, n + 1));
            assert(t.leads_to(x, y));
        }
        lemma_disposable_complete(t, order, j);
        lemma_disposable_grows(t, order, (j + 1) as nat, i as nat);
    }
    assert(t.nodes@[x].dependents@.subset_of(prev));
    assert(t.nodes@[x].spec_is_idempotent());
}


/// Along a build order with dependents first in a graph without cycles, what the build of
/// `order[k]` read stays final while a capsule before it in the order is handled, as long as
/// only that capsule's data changes.
pub proof fn lemma_final_data_kept<C: Capsule>(
    o: &ContainerWriteTxn<C, C::Data, C::State>,
    order: Seq<u128>,
    i: int,
    k: int,
    start: &ContainerWriteTxn<C, C::Data, C::State>,
    before: &ContainerWriteTxn<C, C::Data, C::State>,
    after: &ContainerWriteTxn<C, C::Data, C::State>,
    d0: Set<u128>,
    d1: Set<u128>,
)
    requires
        o.acyclic(),
        o.dependents_first(order),
        order.no_duplicates(),
        0 <= i < k < order.len(),
        o.read_final_data(start, before, d0, order[k]),
        forall|p: u128|
            o.nodes@.contains_key(p) && #[trigger] after.nodes@.contains_key(p) && !d1.contains(p) && p != order[i]
                ==> before.nodes@.contains_key(p) && !d0.contains(p) && after.data@[p] == before.data@[p],
    ensures
        o.read_final_data(start, after, d1, order[k]),
{
    reveal(ContainerWriteTxn::read_final_data);
    assert forall|p: u128|
        o.nodes@.contains_key(p) && #[trigger] o.nodes@[p].dependents@.contains(order[k])
            && after.nodes@.contains_key(p) && !d1.contains(p) implies start.data@.contains_key(p)
            && start.data@[p] == after.data@[p] by {
        if p == order[i] {
            assert(!o.leads_to(order[k], p));
            let j = choose|j: int| 0 <= j < i && order[j] == order[k];
            assert(order[j] == order[k]);
        }
    }
}

} // verus!
