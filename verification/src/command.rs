//! Component Command Buffer: an ordered, replayable log of component
//! mutations recorded by jobs during a barrier interval and applied atomically
//! to shared storage at merge time.
//!
//! Entries are applied in recording order; for one entity the last recorded
//! entry wins, and a set/remove pair collapses to the final state only.

use vstd::prelude::*;

use crate::assoc::kremove;
use crate::assoc::kupsert;
use crate::assoc::lemma_kremove_lookup;
use crate::assoc::lemma_kremove_unique;
use crate::assoc::lemma_kupsert_lookup;
use crate::assoc::lemma_kupsert_unique;
use crate::assoc::lookup;
use crate::assoc::map_of;
use crate::assoc::unique_keys;
use crate::components::ComponentGroup;
use crate::components::EntityId;

verus! {

/// One recorded mutation of one entity's component of type `T`.
#[derive(Clone, Copy, PartialEq, Eq, Structural, Debug)]
pub enum CommandBufferEntry<T> {
    Put { entity: EntityId, value: T },
    Remove { entity: EntityId },
}

/// The storage state after applying one entry.
pub open spec fn apply_entry<T>(
    s: Seq<(EntityId, T)>,
    e: CommandBufferEntry<T>,
) -> Seq<(EntityId, T)> {
    match e {
        CommandBufferEntry::Put { entity, value } => kupsert(s, entity, value),
        CommandBufferEntry::Remove { entity } => kremove(s, entity),
    }
}

/// The storage state after applying a log of entries in recording order.
pub open spec fn apply_entries<T>(
    s: Seq<(EntityId, T)>,
    es: Seq<CommandBufferEntry<T>>,
) -> Seq<(EntityId, T)>
    decreases es.len(),
{
    if es.len() == 0 {
        s
    } else {
        apply_entry(apply_entries(s, es.drop_last()), es.last())
    }
}

/// The last recorded decision about `entity`: untouched, removed, or set.
pub open spec fn last_write<T>(es: Seq<CommandBufferEntry<T>>, entity: EntityId) -> Option<
    Option<T>,
>
    decreases es.len(),
{
    if es.len() == 0 {
        None
    } else {
        match es.last() {
            CommandBufferEntry::Put { entity: e, value } => if e == entity {
                Some(Some(value))
            } else {
                last_write(es.drop_last(), entity)
            },
            CommandBufferEntry::Remove { entity: e } => if e == entity {
                Some(None)
            } else {
                last_write(es.drop_last(), entity)
            },
        }
    }
}

/// The entity an entry mutates.
pub open spec fn entry_entity<T>(e: CommandBufferEntry<T>) -> EntityId {
    match e {
        CommandBufferEntry::Put { entity, .. } => entity,
        CommandBufferEntry::Remove { entity } => entity,
    }
}

/// Two entries of one interval touch the same entity: resolved by
/// last-write-wins at merge time, never an error, but worth diagnosing.
pub open spec fn entries_conflict<T>(es: Seq<CommandBufferEntry<T>>) -> bool {
    exists|i: int, j: int|
        0 <= i < j < es.len() && entry_entity(#[trigger] es[i]) == entry_entity(#[trigger] es[j])
}

/// Applying a log touches exactly the entities it writes, and for each of
/// them the last recorded entry wins; uniqueness of keys is preserved.
pub proof fn lemma_apply_last_write<T>(
    s: Seq<(EntityId, T)>,
    es: Seq<CommandBufferEntry<T>>,
    entity: EntityId,
)
    requires
        unique_keys(s),
    ensures
        unique_keys(apply_entries(s, es)),
        lookup(apply_entries(s, es), entity) == match last_write(es, entity) {
            None => lookup(s, entity),
            Some(None) => None::<T>,
            Some(Some(v)) => Some(v),
        },
    decreases es.len(),
{
    if es.len() > 0 {
        let pre = apply_entries(s, es.drop_last());
        lemma_apply_last_write(s, es.drop_last(), entity);
        match es.last() {
            CommandBufferEntry::Put { entity: e, value } => {
                lemma_apply_last_write(s, es.drop_last(), e);
                lemma_kupsert_unique(pre, e, value);
                lemma_kupsert_lookup(pre, e, value, entity);
            },
            CommandBufferEntry::Remove { entity: e } => {
                lemma_apply_last_write(s, es.drop_last(), e);
                lemma_kremove_unique(pre, e);
                lemma_kremove_lookup(pre, e, entity);
            },
        }
    }
}

/// Merge is idempotent: re-applying the same log to its own result denotes
/// the same component map, because no entry's effect depends on prior state.
pub proof fn lemma_merge_idempotent<T>(s: Seq<(EntityId, T)>, es: Seq<CommandBufferEntry<T>>)
    requires
        unique_keys(s),
    ensures
        map_of(apply_entries(apply_entries(s, es), es)) == map_of(apply_entries(s, es)),
{
    let once = apply_entries(s, es);
    let twice = apply_entries(once, es);
    assert forall|k: EntityId| lookup(twice, k) == lookup(once, k) by {
        lemma_apply_last_write(s, es, k);
        lemma_apply_last_write(once, es, k);
    }
    assert(map_of(twice) =~= map_of(once));
}

/// The replayable log of component mutations for one barrier interval.
pub struct CommandBuffer<T> {
    entries: Vec<CommandBufferEntry<T>>,
}

impl<T> View for CommandBuffer<T> {
    type V = Seq<CommandBufferEntry<T>>;

    closed spec fn view(&self) -> Seq<CommandBufferEntry<T>> {
        self.entries@
    }
}

impl<T: Copy> CommandBuffer<T> {
    pub fn new() -> (r: Self)
        ensures
            r@ =~= Seq::<CommandBufferEntry<T>>::empty(),
    {
        CommandBuffer { entries: Vec::new() }
    }

    pub fn len(&self) -> (r: usize)
        ensures
            r == self@.len(),
    {
        self.entries.len()
    }

    /// Append one mutation to the log.
    pub fn record(&mut self, e: CommandBufferEntry<T>)
        ensures
            final(self)@ =~= old(self)@.push(e),
    {
        self.entries.push(e);
    }

    /// Append a whole log, keeping its order.
    pub fn record_all(&mut self, other: CommandBuffer<T>)
        ensures
            final(self)@ =~= old(self)@ + other@,
    {
        let mut v = other.entries;
        self.entries.append(&mut v);
    }

    /// Whether two recorded entries mutate the same entity. Such a pair is
    /// resolved by last-write-wins at merge time; this only makes the
    /// collision observable for diagnosis.
    pub fn has_conflicting_writes(&self) -> (r: bool)
        ensures
            r == entries_conflict(self@),
    {
        let n = self.entries.len();
        for a in 0..n
            invariant
                n == self@.len(),
                forall|x: int, y: int|
                    0 <= x < y < n && x < a ==> entry_entity(#[trigger] self@[x]) != entry_entity(
                        #[trigger] self@[y],
                    ),
        {
            let ea = match self.entries[a] {
                CommandBufferEntry::Put { entity, .. } => entity,
                CommandBufferEntry::Remove { entity } => entity,
            };
            for b in (a + 1)..n
                invariant
                    n == self@.len(),
                    a < n,
                    ea == entry_entity(self@[a as int]),
                    forall|y: int|
                        a < y < b ==> ea != entry_entity(#[trigger] self@[y]),
            {
                let eb = match self.entries[b] {
                    CommandBufferEntry::Put { entity, .. } => entity,
                    CommandBufferEntry::Remove { entity } => entity,
                };
                if ea == eb {
                    return true;
                }
            }
        }
        false
    }

    /// Apply every recorded entry to the shared group, in recording order,
    /// then clear the buffer. The single point at which shared component
    /// state is mutated.
    pub fn merge(&mut self, group: &mut ComponentGroup<T>)
        requires
            old(group).wf(),
        ensures
            final(group).wf(),
            final(group)@ =~= apply_entries(old(group)@, old(self)@),
            final(self)@ =~= Seq::<CommandBufferEntry<T>>::empty(),
    {
        let ghost g0 = group@;
        let ghost es = self.entries@;
        let n = self.entries.len();
        for i in 0..n
            invariant
                n == es.len(),
                self@ == es,
                group.wf(),
                group@ == apply_entries(g0, es.take(i as int)),
        {
            let e = self.entries[i];
            match e {
                CommandBufferEntry::Put { entity, value } => {
                    group.set(entity, value);
                },
                CommandBufferEntry::Remove { entity } => {
                    group.remove(entity);
                },
            }
            proof {
                assert(es.take(i + 1).drop_last() =~= es.take(i as int));
                assert(es.take(i + 1).last() == es[i as int]);
            }
        }
        proof {
            assert(es.take(n as int) =~= es);
        }
        self.entries = Vec::new();
    }
}

} // verus!
