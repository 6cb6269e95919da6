//! Properties of the library that relate several operations, or hold of every state.
use vstd::prelude::*;

use crate::capsule_key::{lemma_id_parts, lemma_raw_injective};
use crate::mutation::{mutation_data, MutationState};
use crate::naming::{pascal_case, uppercase_of};
use crate::side_effects::{async_data, AsyncState};
use crate::read_capsules::{refers_to, reads_as};
use crate::txn::ContainerWriteTxn;
use crate::{applied_with, built_data, first_built, mutated_as, registered_ids, state_replaced, state_steps, Capsule, CapsuleKey, CapsulesWithCloneRead, Container, CreateCapsuleId};

verus! {

/// Rebuilding the capsules `ids` leaves every capsule that does not depend on one of them
/// (directly or through other capsules) exactly as it was: same data, same dependencies,
/// same side effect state.
pub proof fn law_rebuild_spares_independent_capsules<C: Capsule>(
    old: ContainerWriteTxn<C, C::Data, C::State>,
    new: ContainerWriteTxn<C, C::Data, C::State>,
    ids: Set<u128>,
    changed: Set<u128>,
    x: u128,
)
    requires
        old.propagates(&new, ids, changed),
        old.nodes@.contains_key(x),
        !old.downstream(ids, x),
    ensures
        new.untouched(&old, x),
{
    assert(!old.depends_within(ids, x, 0));
    assert forall|p: u128| old.nodes@[x].dependencies@.contains(p) implies !#[trigger] changed.contains(p) by {
        if changed.contains(p) {
            let n = choose|n: nat| old.depends_within(ids, p, n);
            assert(old.depends_within(ids, x, n + 1));
        }
    }
}

/// A side effect mutation outside of a transaction leaves every capsule that does not
/// depend on the mutated capsule (directly or through other capsules) exactly as it was.
pub proof fn law_mutation_spares_independent_capsules<C: Capsule>(
    old: Container<C>,
    new: Container<C>,
    id: u128,
    x: u128,
)
    requires
        mutated_as(old, new, id),
        !old.in_side_effect_txn(),
        old.graph().nodes@.contains_key(x),
        !old.graph().downstream(registered_ids(old.graph(), id), x),
    ensures
        new.graph().untouched(&old.graph(), x),
{
    let ids = registered_ids(old.graph(), id);
    let (changed, disposed) = choose|changed: Set<u128>, disposed: Set<u128>|
        old.graph().propagates(&new.graph(), ids, changed) && #[trigger] old.graph().collects_garbage(
            &new.graph(),
            ids,
            changed,
            disposed,
        );
    law_rebuild_spares_independent_capsules(old.graph(), new.graph(), ids, changed, x);
}

/// A side effect mutation outside of a transaction rebuilds the mutated capsule when it
/// registered a side effect; no capsule ends up built fewer times than before.
pub proof fn law_mutation_rebuilds_capsule<C: Capsule>(old: Container<C>, new: Container<C>, id: u128)
    requires
        mutated_as(old, new, id),
        !old.in_side_effect_txn(),
    ensures
        registered_ids(old.graph(), id).contains(id) ==> new.graph().nodes@.contains_key(id)
            && new.graph().build_count(id) > old.graph().build_count(id),
        forall|x: u128| #[trigger] new.graph().build_count(x) >= old.graph().build_count(x),
{
    let ids = registered_ids(old.graph(), id);
    let (changed, disposed) = choose|changed: Set<u128>, disposed: Set<u128>|
        old.graph().propagates(&new.graph(), ids, changed) && #[trigger] old.graph().collects_garbage(
            &new.graph(),
            ids,
            changed,
            disposed,
        );
    if ids.contains(id) {
        assert(!old.graph().nodes@[id].spec_is_idempotent());
    }
}

/// A side effect mutation outside of a transaction rebuilds the mutated capsule from the
/// state that the mutation left: the capsule's new data is what its build returned given
/// that state.
pub proof fn law_mutation_rebuilds_from_new_state<C: Capsule>(
    old: Container<C>,
    new: Container<C>,
    id: u128,
    step: spec_fn(C::State, C::State) -> bool,
)
    requires
        state_steps(old, new, id, step),
        !old.in_side_effect_txn(),
        registered_ids(old.graph(), id).contains(id),
    ensures
        exists|s: C::State, t: C::State|
            old.graph().nodes@[id].side_effect == Some(Some(s)) && #[trigger] step(s, t)
                && new.graph().nodes@.contains_key(id) && new.graph().build_count(id) > old.graph().build_count(id)
                && exists|start: ContainerWriteTxn<C, C::Data, C::State>|
                #[trigger] built_data(old.graph().nodes@[id].capsule->0, id, Some(t), start, new.graph().data@[id]),
{
    let (s, t) = choose|s: C::State, t: C::State|
        old.graph().nodes@[id].side_effect == Some(Some(s)) && #[trigger] step(s, t) && applied_with(old, new, id, t);
    let (mid, changed, disposed) = choose|
        mid: ContainerWriteTxn<C, C::Data, C::State>,
        changed: Set<u128>,
        disposed: Set<u128>,
    |
        state_replaced(old.graph(), mid, id, t) && mid.propagates(&new.graph(), set![id], changed)
            && #[trigger] mid.collects_garbage(&new.graph(), set![id], changed, disposed)
            && mid.rebuilt_data(&new.graph(), disposed);
    assert(set![id].contains(id));
    assert(!mid.nodes@[id].spec_is_idempotent());
    assert(!disposed.contains(id));
    assert(new.graph().build_count(id) > mid.build_count(id));
}

/// In a graph where no capsule depends on itself, rebuilding rebuilds every capsule that
/// stays in the graph and read a capsule that changed.
pub proof fn law_rebuild_refreshes_dependents<C: Capsule>(
    old: ContainerWriteTxn<C, C::Data, C::State>,
    new: ContainerWriteTxn<C, C::Data, C::State>,
    ids: Set<u128>,
    changed: Set<u128>,
    p: u128,
    x: u128,
)
    requires
        old.propagates(&new, ids, changed),
        old.acyclic(),
        changed.contains(p),
        old.nodes@[p].dependents@.contains(x),
        new.nodes@.contains_key(x),
    ensures
        new.build_count(x) > old.build_count(x),
{
}

/// In a graph where no capsule depends on itself, a capsule is rebuilt after the capsules it
/// depends on: its build read, of each such capsule that stays in the graph, the data that
/// capsule ends up with.
pub proof fn law_rebuild_reads_final_dependencies<C: Capsule>(
    old: ContainerWriteTxn<C, C::Data, C::State>,
    new: ContainerWriteTxn<C, C::Data, C::State>,
    disposed: Set<u128>,
    x: u128,
    p: u128,
)
    requires
        old.rebuilt_data(&new, disposed),
        old.acyclic(),
        old.nodes@.contains_key(x),
        new.nodes@.contains_key(x),
        !disposed.contains(x),
        new.build_count(x) > old.build_count(x),
        old.nodes@.contains_key(p),
        old.nodes@[p].dependents@.contains(x),
        new.nodes@.contains_key(p),
        !disposed.contains(p),
    ensures
        exists|start: ContainerWriteTxn<C, C::Data, C::State>|
            #[trigger] built_data(old.nodes@[x].capsule->0, x, old.nodes@[x].side_effect->0, start, new.data@[x])
                && start.data@.contains_key(p) && start.data@[p] == new.data@[p],
{
    let start = choose|start: ContainerWriteTxn<C, C::Data, C::State>|
        #[trigger] built_data(old.nodes@[x].capsule->0, x, old.nodes@[x].side_effect->0, start, new.data@[x])
            && (old.acyclic() ==> old.read_final_data(&start, &new, disposed, x));
    reveal(ContainerWriteTxn::read_final_data);
    assert(start.data@.contains_key(p) && start.data@[p] == new.data@[p]);
}

/// A capsule that was not required and none of whose dependencies was disposed or rebuilt
/// into data that [`Capsule::eq`] did not find equivalent to its old data is left exactly as
/// it was: a rebuild that gives equivalent data does not reach its dependents.
pub proof fn law_equivalent_data_spares_dependents<C: Capsule>(
    old: ContainerWriteTxn<C, C::Data, C::State>,
    new: ContainerWriteTxn<C, C::Data, C::State>,
    ids: Set<u128>,
    changed: Set<u128>,
    disposed: Set<u128>,
    y: u128,
)
    requires
        old.propagates(&new, ids, changed),
        old.collects_garbage(&new, ids, changed, disposed),
        old.nodes@.contains_key(y),
        !ids.contains(y),
        forall|p: u128| #[trigger]
            old.nodes@[y].dependencies@.contains(p) ==> !disposed.contains(p) && (new.build_count(p)
                > old.build_count(p) && new.nodes@.contains_key(p) ==> C::spec_eq(&old.data@[p], &new.data@[p])),
    ensures
        new.untouched(&old, y),
{
    assert forall|p: u128| old.nodes@[y].dependencies@.contains(p) implies !#[trigger] changed.contains(p) by {
        if changed.contains(p) {
            assert(old.nodes@.contains_key(p));
            assert(new.build_count(p) > old.build_count(p));
        }
    }
}

/// Rebuilding never disposes a capsule that registered a side effect (a listener, say);
/// only idempotent capsules that changed are garbage collected.
pub proof fn law_rebuild_keeps_capsules_with_side_effects<C: Capsule>(
    old: ContainerWriteTxn<C, C::Data, C::State>,
    new: ContainerWriteTxn<C, C::Data, C::State>,
    ids: Set<u128>,
    changed: Set<u128>,
    x: u128,
)
    requires
        old.propagates(&new, ids, changed),
        old.nodes@.contains_key(x),
    ensures
        !old.nodes@[x].spec_is_idempotent() ==> new.nodes@.contains_key(x),
        !new.nodes@.contains_key(x) ==> changed.contains(x),
{
}

/// In a graph where no capsule depends on itself, rebuilding garbage collects every
/// capsule that was required or read a capsule that changed, and that leads to idempotent
/// capsules only; such a capsule is gone from the graph afterwards unless a later build
/// read it again. Only idempotent capsules that changed are ever garbage collected.
pub proof fn law_rebuild_collects_garbage<C: Capsule>(
    old: ContainerWriteTxn<C, C::Data, C::State>,
    new: ContainerWriteTxn<C, C::Data, C::State>,
    ids: Set<u128>,
    changed: Set<u128>,
    disposed: Set<u128>,
    x: u128,
)
    requires
        old.propagates(&new, ids, changed),
        old.collects_garbage(&new, ids, changed, disposed),
        old.acyclic(),
        old.nodes@.contains_key(x),
        old.only_idempotent_downstream(x),
        ids.contains(x) || exists|p: u128| changed.contains(p) && old.nodes@[p].dependents@.contains(x),
    ensures
        disposed.contains(x),
        new.nodes@.contains_key(x) ==> new.build_count(x) > old.build_count(x),
        forall|y: u128| #[trigger] disposed.contains(y) ==> changed.contains(y) && old.nodes@[y].spec_is_idempotent(),
{
}

/// Side effect mutations made inside a transaction rebuild nothing: after two of them the
/// data of every capsule is unchanged, and both mutated capsules (those that registered a
/// side effect) are waiting to be rebuilt when the outermost transaction ends.
pub proof fn law_mutations_in_txn_are_deferred<C: Capsule>(
    first: Container<C>,
    second: Container<C>,
    third: Container<C>,
    id1: u128,
    id2: u128,
)
    requires
        first.in_side_effect_txn(),
        mutated_as(first, second, id1),
        mutated_as(second, third, id2),
    ensures
        third.in_side_effect_txn(),
        third.graph().data@ == first.graph().data@,
        third.graph().nodes@.dom() == first.graph().nodes@.dom(),
        third.modified_in_txn() == first.modified_in_txn().union(registered_ids(first.graph(), id1)).union(
            registered_ids(second.graph(), id2),
        ),
{
}

/// Reading a capsule twice gives clones of the same data, and the second read changes
/// nothing in the container.
pub proof fn law_read_is_stable<C: Capsule>(
    capsule: C,
    c0: Container<C>,
    c1: Container<C>,
    c2: Container<C>,
    d1: C::Data,
    d2: C::Data,
)
    where
        C::Data: Clone,
    requires
        capsule.spec_read(c0, c1, d1),
        capsule.spec_read(c1, c2, d2),
    ensures
        c2.graph() == c1.graph(),
        cloned(c1.graph().data@[capsule.spec_id().spec_raw()], d1),
        cloned(c1.graph().data@[capsule.spec_id().spec_raw()], d2),
{
    assert(reads_as(capsule, c1, d1));
    assert(c1.graph().nodes@.contains_key(capsule.spec_id().spec_raw()));
}

/// The first read of a capsule builds it exactly once and gives back (a clone of) the data
/// that its build returned.
pub proof fn law_first_read_gives_built_data<C: Capsule>(capsule: C, c0: Container<C>, c1: Container<C>, d: C::Data)
    where
        C::Data: Clone,
    requires
        capsule.spec_read(c0, c1, d),
        !c0.graph().nodes@.contains_key(capsule.spec_id().spec_raw()),
    ensures
        c1.graph().build_count(capsule.spec_id().spec_raw()) == c0.graph().build_count(capsule.spec_id().spec_raw()) + 1,
        exists|built: C::Data|
            first_built(capsule, c0.graph(), c1.graph()) && #[trigger] cloned(built, d)
                && built == c1.graph().data@[capsule.spec_id().spec_raw()],
{
    let built = c1.graph().data@[capsule.spec_id().spec_raw()];
    assert(cloned(built, d));
}

/// A read by reference of a capsule that is in the container refers to the data that a
/// clone read of it clones.
pub proof fn law_ref_and_clone_reads_agree<C: Capsule>(
    capsule: C,
    c0: Container<C>,
    c_ref: Container<C>,
    c_clone: Container<C>,
    r: &C::Data,
    d: C::Data,
)
    where
        C::Data: Clone,
    requires
        c0.graph().nodes@.contains_key(capsule.spec_id().spec_raw()),
        refers_to(capsule, c_ref, r),
        crate::read_capsules::read_frame(c0, c_ref, true),
        capsule.spec_read(c0, c_clone, d),
    ensures
        cloned(*r, d),
{
}

/// Capsules of different kinds, or of one kind with different keys, are different
/// capsules of the container, whatever else they share.
pub proof fn law_ids_separate_kinds_and_keys<C: Capsule>(a: C, b: C)
    requires
        a.spec_capsule_type() != b.spec_capsule_type() || a.spec_key() != b.spec_key(),
    ensures
        a.spec_id().spec_raw() != b.spec_id().spec_raw(),
{
    if a.spec_key().spec_key_bits() == b.spec_key().spec_key_bits() {
        C::Key::lemma_key_bits_injective(a.spec_key(), b.spec_key());
    }
    lemma_id_parts(a.spec_capsule_type(), a.spec_key().spec_key_bits());
    lemma_id_parts(b.spec_capsule_type(), b.spec_key().spec_key_bits());
    lemma_raw_injective(a.spec_id(), b.spec_id());
}

/// Starting or clearing a mutation keeps its latest data; completing it replaces that data
/// with the result.
pub proof fn law_mutation_steps_keep_data<T>(state: MutationState<T>, result: T)
    ensures
        mutation_data(MutationState::Loading(mutation_data(state))) == mutation_data(state),
        mutation_data(MutationState::Idle(mutation_data(state))) == mutation_data(state),
        mutation_data(MutationState::Complete(result)) == Some(result),
{
}


/// Starting or clearing an asynchronous computation keeps its latest data; completing it
/// replaces that data with the result.
pub proof fn law_async_steps_keep_data<T>(state: AsyncState<T>, result: T)
    ensures
        async_data(AsyncState::Loading(async_data(state))) == async_data(state),
        async_data(AsyncState::Idle(async_data(state))) == async_data(state),
        async_data(AsyncState::Complete(result)) == Some(result),
{
}

/// The same step of an asynchronous computation and of a mutation: each variant of one is
/// the same variant of the other.
pub open spec fn async_as_mutation<T>(state: AsyncState<T>) -> MutationState<T> {
    match state {
        AsyncState::Idle(p) => MutationState::Idle(p),
        AsyncState::Loading(p) => MutationState::Loading(p),
        AsyncState::Complete(d) => MutationState::Complete(d),
    }
}

/// An asynchronous computation and a mutation in the same step hold the same latest data.
pub proof fn law_async_and_mutation_data_agree<T>(state: AsyncState<T>)
    ensures
        async_data(state) == mutation_data(async_as_mutation(state)),
{
}

/// `s` holds no underscore.
pub open spec fn no_underscore(s: Seq<char>) -> bool {
    forall|i: int| 0 <= i < s.len() ==> s[i] != '_'
}

/// A word (no underscore) is kept as it is inside a word, and at the start of a word only its
/// first character is upper-cased, however long the word.
pub proof fn law_pascal_case_of_a_word(w: Seq<char>)
    requires
        no_underscore(w),
    ensures
        pascal_case(w, false) == w,
        w.len() > 0 ==> pascal_case(w, true) == uppercase_of(w[0]) + w.drop_first(),
    decreases w.len(),
{
    if w.len() > 0 {
        law_pascal_case_of_a_word(w.drop_first());
        assert(seq![w[0]] + w.drop_first() =~= w);
    }
}

/// PascalCase goes word by word: a word, an underscore and the rest turn into the word's
/// PascalCase followed by that of the rest, whatever their lengths.
pub proof fn law_pascal_case_word_by_word(w: Seq<char>, rest: Seq<char>)
    requires
        no_underscore(w),
    ensures
        pascal_case(w + seq!['_'] + rest, true) == pascal_case(w, true) + pascal_case(rest, true),
{
    lemma_pascal_case_append(w, seq!['_'] + rest, true);
    assert((seq!['_'] + rest).drop_first() =~= rest);
    assert(w + seq!['_'] + rest =~= w + (seq!['_'] + rest));
}

/// Underscores before a name are dropped, and the name starts a word.
pub proof fn law_pascal_case_drops_leading_underscore(s: Seq<char>, at_word_start: bool)
    ensures
        pascal_case(seq!['_'] + s, at_word_start) == pascal_case(s, true),
{
    assert((seq!['_'] + s).drop_first() =~= s);
}

/// The PascalCase of a word followed by more text: the word's, then the rest's, which starts
/// inside the word when the word is not empty.
proof fn lemma_pascal_case_append(w: Seq<char>, t: Seq<char>, at_word_start: bool)
    requires
        no_underscore(w),
    ensures
        pascal_case(w + t, at_word_start) == pascal_case(w, at_word_start) + pascal_case(
            t,
            if w.len() > 0 {
                false
            } else {
                at_word_start
            },
        ),
    decreases w.len(),
{
    if w.len() == 0 {
        assert(w + t =~= t);
    } else {
        lemma_pascal_case_append(w.drop_first(), t, false);
        assert((w + t).drop_first() =~= w.drop_first() + t);
        assert((w + t)[0] == w[0]);
    }
}

} // verus!
