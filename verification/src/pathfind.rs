//! Pathfinding service boundary: stored routes queried by (start, end).
//!
//! The core only consumes pathfinder output. `MapPath` holds the routes a
//! collaborator (a navmesh or grid service) has produced, keyed by their
//! endpoints; `search_paths` answers a query from that table. An absent entry
//! means the endpoints are unreachable from one another; a pair with equal
//! start and end is always trivially reachable by the empty path.

use vstd::prelude::*;

use crate::assoc::lemma_lookup_last_index;
use crate::assoc::lemma_lookup_not_found;
use crate::assoc::lookup;
use crate::components::Position;

verus! {

/// Largest admissible segment length; keeps movement times inside `u64`.
pub const MAX_SEGMENT_LENGTH: u64 = 1_000_000;

/// One leg of a path: the point it leaves from and its length in world units.
#[derive(Clone, Copy, PartialEq, Eq, Structural, Debug)]
pub struct PathSegment {
    pub start: Position,
    pub length: u64,
}

impl PathSegment {
    pub open spec fn wf(self) -> bool {
        self.length <= MAX_SEGMENT_LENGTH
    }
}

/// A stored route: the queried endpoints and the ordered segments between them.
pub struct Route {
    pub start: Position,
    pub end: Position,
    pub segments: Vec<PathSegment>,
}

/// The pathfinding result table. A later route for the same endpoints
/// supersedes an earlier one.
pub struct MapPath {
    routes: Vec<Route>,
}

/// The routes as an association sequence keyed by (start, end).
pub open spec fn route_table(routes: Seq<Route>) -> Seq<((Position, Position), Seq<PathSegment>)> {
    routes.map_values(|r: Route| ((r.start, r.end), r.segments@))
}

/// What a path query returns: the empty path for equal endpoints, the stored
/// segments for a known pair, and nothing for an unreachable pair.
pub open spec fn search_paths_spec(routes: Seq<Route>, start: Position, end: Position) -> Option<
    Seq<PathSegment>,
> {
    if start == end {
        Some(Seq::empty())
    } else {
        lookup(route_table(routes), (start, end))
    }
}

impl MapPath {
    pub closed spec fn spec_routes(&self) -> Seq<Route> {
        self.routes@
    }

    /// Every stored segment respects the length bound.
    pub open spec fn wf(&self) -> bool {
        forall|i: int, j: int|
            0 <= i < self.spec_routes().len() && 0 <= j < self.spec_routes()[i].segments@.len()
                ==> (#[trigger] self.spec_routes()[i].segments@[j]).wf()
    }

    pub open spec fn spec_search_paths(&self, start: Position, end: Position) -> Option<
        Seq<PathSegment>,
    > {
        search_paths_spec(self.spec_routes(), start, end)
    }

    pub fn new() -> (r: MapPath)
        ensures
            r.wf(),
            r.spec_routes() =~= Seq::<Route>::empty(),
    {
        MapPath { routes: Vec::new() }
    }

    /// Store a route produced by the pathfinding collaborator.
    pub fn add_route(&mut self, start: Position, end: Position, segments: Vec<PathSegment>)
        requires
            old(self).wf(),
            forall|j: int| 0 <= j < segments@.len() ==> (#[trigger] segments@[j]).wf(),
        ensures
            final(self).wf(),
            final(self).spec_routes() =~= old(self).spec_routes().push(
                Route { start, end, segments: segments },
            ),
    {
        let ghost segs = segments@;
        self.routes.push(Route { start, end, segments });
        proof {
            let r0 = old(self).spec_routes();
            let r1 = self.spec_routes();
            assert forall|i: int, j: int|
                0 <= i < r1.len() && 0 <= j < r1[i].segments@.len() implies (#[trigger] r1[i]
                .segments@[j]).wf() by {
                if i < r0.len() {
                    assert(r1[i] == r0[i]);
                    assert(old(self).wf());
                } else {
                    assert(r1[i].segments@ == segs);
                }
            }
        }
    }

    /// Every segment of a successful query respects the length bound.
    pub proof fn lemma_search_result_wf(&self, start: Position, end: Position)
        requires
            self.wf(),
            self.spec_search_paths(start, end) is Some,
        ensures
            forall|j: int|
                0 <= j < self.spec_search_paths(start, end).unwrap().len()
                    ==> (#[trigger] self.spec_search_paths(start, end).unwrap()[j]).wf(),
    {
        if start != end {
            let table = route_table(self.spec_routes());
            let segs = self.spec_search_paths(start, end).unwrap();
            crate::assoc::lemma_lookup_member(table, (start, end), segs);
            let i = choose|i: int| 0 <= i < table.len() && table[i] == ((start, end), segs);
            assert(self.spec_routes()[i].segments@ == segs);
        }
    }

    /// Query the table for the raw stored route; `None` means no route is
    /// stored. For distinct endpoints this is exactly `spec_search_paths`;
    /// for equal endpoints `spec_search_paths` is the empty path regardless
    /// of the table, so a caller must settle `start == end` before asking.
    pub fn search_paths(&self, start: Position, end: Position) -> (r: Option<&Vec<PathSegment>>)
        requires
            self.wf(),
        ensures
            match r {
                Some(segs) => lookup(route_table(self.spec_routes()), (start, end)) == Some(segs@),
                None => lookup(route_table(self.spec_routes()), (start, end)) is None,
            },
            start != end ==> self.spec_search_paths(start, end) == match r {
                Some(segs) => Some(segs@),
                None => None::<Seq<PathSegment>>,
            },
            start == end ==> self.spec_search_paths(start, end) == Some(
                Seq::<PathSegment>::empty(),
            ),
    {
        let ghost table = route_table(self.spec_routes());
        let n = self.routes.len();
        let mut i = n;
        while i > 0
            invariant
                n == self.spec_routes().len(),
                i <= n,
                table == route_table(self.spec_routes()),
                table.len() == n,
                forall|j: int| i <= j < n ==> (#[trigger] table[j]).0 != (start, end),
            decreases i,
        {
            i -= 1;
            if self.routes[i].start == start && self.routes[i].end == end {
                proof {
                    assert(table[i as int].0 == (start, end));
                    lemma_lookup_last_index(table, i as int);
                }
                return Some(&self.routes[i].segments);
            } else {
                proof {
                    assert(table[i as int].0 != (start, end));
                }
            }
        }
        proof {
            lemma_lookup_not_found(table, (start, end));
        }
        None
    }
}

} // verus!
