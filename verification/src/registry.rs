//! Layered typed-data registry.
//!
//! A registry is an ordered sequence of layers; each layer maps a type
//! identity (a `u64` key standing for the erased type) to one value. Lookup
//! walks the layers from the innermost (last pushed) to the outermost and
//! returns the first hit. New layers may be appended only while the registry
//! is exclusively owned; once it is shared among clones of a request handle,
//! a push fails fast with `SharedMutationError`.

use vstd::prelude::*;

verus! {

/// Attempted exclusive mutation (a layer push) while the registry is aliased.
/// A logic fault in the caller, never a user-triggered runtime error.
#[derive(Debug)]
pub struct SharedMutationError;

/// One immutable snapshot of typed key-value data.
///
/// Within a layer the entry inserted last for a key is the one visible:
/// `insert` never erases history, it shadows it.
pub struct DataLayer<V> {
    pub entries: Vec<(u64, V)>,
}

/// The value visible for `key` among `entries`: the last entry with that key.
pub open spec fn find_entry<V>(entries: Seq<(u64, V)>, key: u64) -> Option<V>
    decreases entries.len(),
{
    if entries.len() == 0 {
        None::<V>
    } else if entries.last().0 == key {
        Some(entries.last().1)
    } else {
        find_entry(entries.drop_last(), key)
    }
}

impl<V> DataLayer<V> {
    /// What this layer holds for `key`.
    pub open spec fn spec_get(&self, key: u64) -> Option<V> {
        find_entry(self.entries@, key)
    }

    /// Whether this layer holds a value for `key`.
    pub open spec fn contains_key(&self, key: u64) -> bool {
        self.spec_get(key) is Some
    }

    pub fn new() -> (r: Self)
        ensures
            r.entries@ =~= Seq::<(u64, V)>::empty(),
    {
        DataLayer { entries: Vec::new() }
    }

    /// Bind `key` to `value`, shadowing any earlier binding of `key`.
    pub fn insert(&mut self, key: u64, value: V)
        ensures
            final(self).spec_get(key) == Some(value),
            forall|k: u64| k != key ==> final(self).spec_get(k) == old(self).spec_get(k),
    {
        self.entries.push((key, value));
        proof {
            assert(self.entries@.drop_last() =~= old(self).entries@);
        }
    }

    /// Borrow the value bound to `key`, if any.
    pub fn get(&self, key: u64) -> (r: Option<&V>)
        ensures
            match r {
                Some(v) => self.spec_get(key) == Some(*v),
                None => self.spec_get(key) is None,
            },
    {
        let mut i: usize = self.entries.len();
        proof {
            assert(self.entries@.take(i as int) =~= self.entries@);
        }
        while i > 0
            invariant
                i <= self.entries@.len(),
                find_entry(self.entries@, key) == find_entry(self.entries@.take(i as int), key),
            decreases i,
        {
            i = i - 1;
            if self.entries[i].0 == key {
                proof {
                    assert(self.entries@.take(i + 1).last() == self.entries@[i as int]);
                }
                return Some(&self.entries[i].1);
            }
            proof {
                assert(self.entries@.take(i + 1).drop_last() =~= self.entries@.take(i as int));
            }
        }
        proof {
            assert(self.entries@.take(0) =~= Seq::<(u64, V)>::empty());
        }
        None
    }
}

/// Ordered sequence of shared layers with explicit ownership: `Owned` may
/// still grow, `Shared` is frozen for mutation (reads stay legal).
pub enum Registry<V> {
    Owned { layers: Vec<DataLayer<V>> },
    Shared { layers: Vec<DataLayer<V>> },
}

/// First hit walking `layers` from the innermost (last) to the outermost.
pub open spec fn lookup_layers<V>(layers: Seq<DataLayer<V>>, key: u64) -> Option<V>
    decreases layers.len(),
{
    if layers.len() == 0 {
        None::<V>
    } else if layers.last().contains_key(key) {
        layers.last().spec_get(key)
    } else {
        lookup_layers(layers.drop_last(), key)
    }
}

impl<V> Registry<V> {
    /// The layer sequence, innermost last.
    pub open spec fn spec_layers(&self) -> Seq<DataLayer<V>> {
        match self {
            Registry::Owned { layers } => layers@,
            Registry::Shared { layers } => layers@,
        }
    }

    /// Whether the registry is exclusively owned, so that a push is legal.
    pub open spec fn is_owned(&self) -> bool {
        self matches Registry::Owned { .. }
    }

    /// What a lookup of `key` returns.
    pub open spec fn spec_lookup(&self, key: u64) -> Option<V> {
        lookup_layers(self.spec_layers(), key)
    }

    pub fn new() -> (r: Self)
        ensures
            r.spec_layers() =~= Seq::<DataLayer<V>>::empty(),
            r.is_owned(),
    {
        Registry::Owned { layers: Vec::new() }
    }

    /// Scan the layers innermost to outermost; the first layer holding `key`
    /// supplies the value. Absence is an ordinary outcome, not an error.
    pub fn lookup(&self, key: u64) -> (r: Option<&V>)
        ensures
            match r {
                Some(v) => self.spec_lookup(key) == Some(*v),
                None => self.spec_lookup(key) is None,
            },
    {
        let layers: &Vec<DataLayer<V>> = match self {
            Registry::Owned { layers } => layers,
            Registry::Shared { layers } => layers,
        };
        let mut i: usize = layers.len();
        proof {
            assert(layers@ =~= self.spec_layers());
            assert(layers@.take(i as int) =~= layers@);
        }
        while i > 0
            invariant
                i <= layers@.len(),
                layers@ =~= self.spec_layers(),
                lookup_layers(layers@, key) == lookup_layers(layers@.take(i as int), key),
            decreases i,
        {
            i = i - 1;
            proof {
                assert(layers@.take(i + 1).last() == layers@[i as int]);
                assert(layers@.take(i + 1).drop_last() =~= layers@.take(i as int));
            }
            if let Some(v) = layers[i].get(key) {
                proof {
                    assert(lookup_layers(layers@.take(i + 1), key) == Some(*v));
                }
                return Some(v);
            }
        }
        proof {
            assert(layers@.take(0) =~= Seq::<DataLayer<V>>::empty());
        }
        None
    }

    /// Append a new innermost layer. Legal only while exclusively owned;
    /// on a shared registry nothing changes and the push is refused.
    pub fn push_layer(&mut self, layer: DataLayer<V>) -> (r: Result<(), SharedMutationError>)
        ensures
            old(self).is_owned() ==> r is Ok
                && final(self).spec_layers() =~= old(self).spec_layers().push(layer)
                && final(self).is_owned(),
            !old(self).is_owned() ==> r is Err && *final(self) == *old(self),
    {
        match self {
            Registry::Owned { layers } => {
                layers.push(layer);
                Ok(())
            },
            Registry::Shared { .. } => Err(SharedMutationError),
        }
    }

    /// Freeze the registry: it now counts as aliased, so later pushes fail.
    pub fn mark_shared(&mut self)
        ensures
            final(self).spec_layers() =~= old(self).spec_layers(),
            !final(self).is_owned(),
    {
        let mut taken = Registry::Shared { layers: Vec::new() };
        core::mem::swap(self, &mut taken);
        let layers: Vec<DataLayer<V>> = match taken {
            Registry::Owned { layers } => layers,
            Registry::Shared { layers } => layers,
        };
        *self = Registry::Shared { layers };
    }
}

/// Shadowing law: when the same key is present in several layers, a lookup
/// returns the value of the innermost (latest-pushed) layer holding it.
pub proof fn lemma_lookup_innermost_wins<V>(layers: Seq<DataLayer<V>>, key: u64, j: int)
    requires
        0 <= j < layers.len(),
        layers[j].contains_key(key),
        forall|i: int| j < i < layers.len() ==> !layers[i].contains_key(key),
    ensures
        lookup_layers(layers, key) == layers[j].spec_get(key),
    decreases layers.len(),
{
    if j == layers.len() - 1 {
        assert(layers.last() == layers[j]);
    } else {
        assert(!layers.last().contains_key(key));
        lemma_lookup_innermost_wins(layers.drop_last(), key, j);
    }
}

} // verus!
