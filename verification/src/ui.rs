//! Declarative views built as a list of layers: keys that identify a view across rebuilds,
//! injections of scoped data for the layers below them, and children.
//!
//! `B` is the type that says how to build an injection or a child (typically an enum with
//! one variant, carrying its props, per scope or child view).
use vstd::prelude::*;

use crate::CapsuleKey;

verus! {

/// One layer of a view under construction.
pub enum ViewLayer<B> {
    /// Identifies the view across rebuilds, by the reduction of a key.
    Key { key: u64 },
    /// Scoped data made available to the layers below.
    Injection { build_injection_data: B },
    /// A child view.
    Child { build_child: B },
}

/// A view under construction: its layers, outermost first.
pub struct IntermediateView<B> {
    pub layers: Vec<ViewLayer<B>>,
}

/// Whether two keys identify the same view.
pub fn keys_eq<K: CapsuleKey>(old: &K, new: &K) -> (r: bool)
    ensures
        r == (old.spec_key_bits() == new.spec_key_bits()),
{
    let old_bits = old.key_bits();
    let new_bits = new.key_bits();
    old_bits == new_bits
}

/// A view with no layers yet.
pub fn view<B>() -> (v: IntermediateView<B>)
    ensures
        v.layers@ == Seq::<ViewLayer<B>>::empty(),
{
    IntermediateView { layers: Vec::new() }
}

impl<B> IntermediateView<B> {
    /// Adds a layer that provides the data built by `scope` to the layers below.
    pub fn inject(self, scope: B) -> (v: Self)
        ensures
            v.layers@ == self.layers@.push(ViewLayer::Injection { build_injection_data: scope }),
    {
        let mut layers = self.layers;
        layers.push(ViewLayer::Injection { build_injection_data: scope });
        IntermediateView { layers }
    }

    /// Adds a layer that identifies the view by `key`.
    pub fn keyed<K: CapsuleKey>(self, key: K) -> (v: Self)
        ensures
            v.layers@ == self.layers@.push(ViewLayer::<B>::Key { key: key.spec_key_bits() }),
    {
        let mut layers = self.layers;
        layers.push(ViewLayer::Key { key: key.key_bits() });
        IntermediateView { layers }
    }

    /// Adds the child view built by `child`.
    pub fn child(self, child: B) -> (v: Self)
        ensures
            v.layers@ == self.layers@.push(ViewLayer::Child { build_child: child }),
    {
        let mut layers = self.layers;
        layers.push(ViewLayer::Child { build_child: child });
        IntermediateView { layers }
    }
}

} // verus!
