//! Entity-keyed component storage and the component value types.
//!
//! A `ComponentGroup<T>` is a dense container with one `T` per entity that has
//! the capability this tick; absence of a key means the entity lacks it. Its
//! model is an association sequence with unique keys (see `assoc`), so both
//! per-key lookup and deterministic iteration order are part of the contract.

use vstd::prelude::*;

use crate::assoc::kremove;
use crate::assoc::kupsert;
use crate::assoc::lemma_kremove_absent;
use crate::assoc::lemma_kremove_at;
use crate::assoc::lemma_kremove_unique;
use crate::assoc::lemma_kupsert_unique;
use crate::assoc::lemma_lookup_index;
use crate::assoc::lemma_lookup_not_found;
use crate::assoc::lookup;
use crate::assoc::unique_keys;

verus! {

/// Stable identifier of a simulated object.
pub type EntityId = u64;

/// A point on the navigable surface, in integer world units.
#[derive(Clone, Copy, PartialEq, Eq, Structural, Debug)]
pub struct Position {
    pub x: i64,
    pub y: i64,
}

/// An orientation, in thousandths of a degree, always below one full turn.
#[derive(Clone, Copy, PartialEq, Eq, Structural, Debug)]
pub struct Angle {
    pub millidegrees: u32,
}

/// Thousandths of a degree in one full turn.
pub const FULL_TURN_MILLIDEG: u32 = 360_000;

/// Movement capability of an entity: its speed in world units per second.
#[derive(Clone, Copy, PartialEq, Eq, Structural, Debug)]
pub struct CharacterStatus {
    pub speed: u64,
}

impl CharacterStatus {
    /// A status usable for movement: speed is positive.
    pub open spec fn wf(self) -> bool {
        self.speed >= 1
    }
}

/// Dense, entity-keyed storage for one component type.
pub struct ComponentGroup<T> {
    entries: Vec<(EntityId, T)>,
}

impl<T> View for ComponentGroup<T> {
    type V = Seq<(EntityId, T)>;

    closed spec fn view(&self) -> Seq<(EntityId, T)> {
        self.entries@
    }
}

impl<T> ComponentGroup<T> {
    /// No entity is bound twice.
    pub open spec fn wf(&self) -> bool {
        unique_keys(self@)
    }

    /// The component bound to `entity`, if any.
    pub open spec fn spec_get(&self, entity: EntityId) -> Option<T> {
        lookup(self@, entity)
    }

    pub fn new() -> (r: Self)
        ensures
            r@ =~= Seq::<(EntityId, T)>::empty(),
            r.wf(),
    {
        ComponentGroup { entries: Vec::new() }
    }

    pub fn len(&self) -> (r: usize)
        ensures
            r == self@.len(),
    {
        self.entries.len()
    }

    /// Read the entry at a position of the iteration order.
    pub fn entry_at(&self, i: usize) -> (r: &(EntityId, T))
        requires
            i < self@.len(),
        ensures
            *r == self@[i as int],
    {
        &self.entries[i]
    }

    pub fn get(&self, entity: EntityId) -> (r: Option<&T>)
        requires
            self.wf(),
        ensures
            match r {
                Some(v) => self.spec_get(entity) == Some(*v),
                None => self.spec_get(entity) is None,
            },
    {
        let n = self.entries.len();
        for i in 0..n
            invariant
                n == self@.len(),
                self.wf(),
                forall|j: int| 0 <= j < i ==> self@[j].0 != entity,
        {
            if self.entries[i].0 == entity {
                proof {
                    lemma_lookup_index(self@, i as int);
                }
                return Some(&self.entries[i].1);
            }
        }
        proof {
            lemma_lookup_not_found(self@, entity);
        }
        None
    }

    pub fn contains(&self, entity: EntityId) -> (r: bool)
        requires
            self.wf(),
        ensures
            r == (self.spec_get(entity) is Some),
    {
        self.get(entity).is_some()
    }

    /// Bind `entity` to `value`, superseding any previous binding.
    pub fn set(&mut self, entity: EntityId, value: T) -> (replaced: bool)
        requires
            old(self).wf(),
        ensures
            final(self).wf(),
            final(self)@ =~= kupsert(old(self)@, entity, value),
            replaced == (old(self).spec_get(entity) is Some),
    {
        let ghost s0 = self@;
        let n = self.entries.len();
        let mut i: usize = 0;
        let mut found: bool = false;
        while i < n && !found
            invariant
                n == s0.len(),
                self@ == s0,
                unique_keys(s0),
                i <= n,
                forall|j: int| 0 <= j < i ==> s0[j].0 != entity,
                found ==> i < n && s0[i as int].0 == entity,
            decreases n - i + (if found { 0int } else { 1int }),
        {
            if self.entries[i].0 == entity {
                found = true;
            } else {
                i += 1;
            }
        }
        if found {
            proof {
                lemma_lookup_index(s0, i as int);
                lemma_kremove_at(s0, i as int);
            }
            self.entries.remove(i);
            self.entries.push((entity, value));
            proof {
                lemma_kupsert_unique(s0, entity, value);
                assert(self@ =~= kupsert(s0, entity, value));
            }
            true
        } else {
            proof {
                lemma_lookup_not_found(s0, entity);
                lemma_kremove_absent(s0, entity);
                lemma_kupsert_unique(s0, entity, value);
            }
            self.entries.push((entity, value));
            proof {
                assert(self@ =~= kupsert(s0, entity, value));
            }
            false
        }
    }

    /// Drop the binding of `entity`, if any.
    pub fn remove(&mut self, entity: EntityId) -> (removed: bool)
        requires
            old(self).wf(),
        ensures
            final(self).wf(),
            final(self)@ =~= kremove(old(self)@, entity),
            removed == (old(self).spec_get(entity) is Some),
    {
        let ghost s0 = self@;
        let n = self.entries.len();
        for i in 0..n
            invariant
                n == s0.len(),
                self@ == s0,
                old(self)@ == s0,
                unique_keys(s0),
                forall|j: int| 0 <= j < i ==> s0[j].0 != entity,
        {
            if self.entries[i].0 == entity {
                proof {
                    lemma_lookup_index(s0, i as int);
                    lemma_kremove_at(s0, i as int);
                    lemma_kremove_unique(s0, entity);
                }
                self.entries.remove(i);
                return true;
            }
        }
        proof {
            lemma_lookup_not_found(s0, entity);
            lemma_kremove_absent(s0, entity);
        }
        false
    }
}

} // verus!
