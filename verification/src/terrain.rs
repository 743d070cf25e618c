//! Read-only terrain description: a per-cell movement-cost multiplier.

use vstd::prelude::*;

use crate::assoc::lemma_lookup_last_index;
use crate::assoc::lemma_lookup_not_found;
use crate::assoc::lookup;
use crate::components::Position;

verus! {

/// Largest admissible cost multiplier; keeps movement times inside `u64`.
pub const MAX_TERRAIN_COST: u64 = 1_000;

/// Terrain, immutable during a tick: a default cost multiplier and a list of
/// per-cell overrides. A later override for the same cell supersedes an
/// earlier one.
pub struct Ground {
    default_cost: u64,
    overrides: Vec<(Position, u64)>,
}

/// The cost multiplier of cell `p` under the given overrides and default.
pub open spec fn cost_of(overrides: Seq<(Position, u64)>, default_cost: u64, p: Position) -> u64 {
    match lookup(overrides, p) {
        Some(c) => c,
        None => default_cost,
    }
}

impl Ground {
    pub closed spec fn spec_default_cost(&self) -> u64 {
        self.default_cost
    }

    pub closed spec fn spec_overrides(&self) -> Seq<(Position, u64)> {
        self.overrides@
    }

    /// Every cost multiplier lies in `1 ..= MAX_TERRAIN_COST`.
    pub open spec fn wf(&self) -> bool {
        &&& 1 <= self.spec_default_cost() <= MAX_TERRAIN_COST
        &&& forall|i: int|
            0 <= i < self.spec_overrides().len() ==> 1 <= (#[trigger] self.spec_overrides()[i]).1
                <= MAX_TERRAIN_COST
    }

    /// The cost multiplier of cell `p`.
    pub open spec fn spec_cost_at(&self, p: Position) -> u64 {
        cost_of(self.spec_overrides(), self.spec_default_cost(), p)
    }

    pub fn new(default_cost: u64) -> (r: Ground)
        requires
            1 <= default_cost <= MAX_TERRAIN_COST,
        ensures
            r.wf(),
            r.spec_default_cost() == default_cost,
            r.spec_overrides() =~= Seq::<(Position, u64)>::empty(),
    {
        Ground { default_cost, overrides: Vec::new() }
    }

    /// Record a per-cell override, superseding earlier ones for the same cell.
    pub fn set_cost(&mut self, p: Position, cost: u64)
        requires
            old(self).wf(),
            1 <= cost <= MAX_TERRAIN_COST,
        ensures
            final(self).wf(),
            final(self).spec_default_cost() == old(self).spec_default_cost(),
            final(self).spec_overrides() =~= old(self).spec_overrides().push((p, cost)),
    {
        self.overrides.push((p, cost));
        proof {
            let s0 = old(self).spec_overrides();
            let s1 = self.spec_overrides();
            assert forall|i: int|
                0 <= i < s1.len() implies 1 <= (#[trigger] s1[i]).1 <= MAX_TERRAIN_COST by {
                if i < s0.len() {
                    assert(s1[i] == s0[i]);
                } else {
                    assert(s1[i] == (p, cost));
                }
            }
        }
    }

    pub fn cost_at(&self, p: Position) -> (r: u64)
        requires
            self.wf(),
        ensures
            r == self.spec_cost_at(p),
            1 <= r <= MAX_TERRAIN_COST,
    {
        let ghost ovr = self.spec_overrides();
        let n = self.overrides.len();
        let mut i = n;
        while i > 0
            invariant
                ovr == self.spec_overrides(),
                n == ovr.len(),
                i <= n,
                self.wf(),
                forall|j: int| i <= j < n ==> (#[trigger] ovr[j]).0 != p,
            decreases i,
        {
            i -= 1;
            if self.overrides[i].0 == p {
                proof {
                    lemma_lookup_last_index(ovr, i as int);
                }
                return self.overrides[i].1;
            }
        }
        proof {
            lemma_lookup_not_found(ovr, p);
        }
        self.default_cost
    }
}

} // verus!
