//! Action Scheduler: per-entity queues of in-flight action states.
//!
//! The scheduler exclusively owns the map from entity to its active queue.
//! Each tick it advances the head action of every scheduled entity by the
//! elapsed time, pops finished actions, and re-invokes the Action Creator
//! when a queue drains; a creator failure is non-fatal and only clears the
//! offending entity's queue. An entity with no queue entry is Idle.

use vstd::prelude::*;

use crate::action::create;
use crate::action::create_spec;
use crate::action::ActionCreatorResult;
use crate::action::ActionPayload;
use crate::action::ActionState;
use crate::action::CreatorResultView;
use crate::assoc::kremove;
use crate::assoc::kupsert;
use crate::assoc::lemma_kremove_absent;
use crate::assoc::lemma_kremove_at;
use crate::assoc::lemma_kremove_unique;
use crate::assoc::lemma_kupsert_unique;
use crate::assoc::lemma_lookup_index;
use crate::assoc::lemma_lookup_not_found;
use crate::assoc::lemma_remove_unique;
use crate::assoc::lemma_unique_same_keys;
use crate::assoc::lookup;
use crate::assoc::unique_keys;
use crate::components::CharacterStatus;
use crate::components::ComponentGroup;
use crate::components::EntityId;
use crate::components::Position;
use crate::pathfind::MapPath;
use crate::terrain::Ground;

verus! {

/// The mathematical shape of one entity's plan: its goal and queued actions.
pub ghost struct PlanView {
    pub goal: Position,
    pub queue: Seq<ActionState>,
}

/// One entity's plan: the movement goal and the queue of action states,
/// head first, executed strictly in path order.
pub struct EntityPlan {
    pub goal: Position,
    pub queue: Vec<ActionState>,
}

impl View for EntityPlan {
    type V = PlanView;

    open spec fn view(&self) -> PlanView {
        PlanView { goal: self.goal, queue: self.queue@ }
    }
}

/// A scheduled plan is never empty and every queued action is sound and
/// belongs to its entity.
pub open spec fn plan_wf(entity: EntityId, p: PlanView) -> bool {
    &&& p.queue.len() > 0
    &&& forall|j: int|
        0 <= j < p.queue.len() ==> (#[trigger] p.queue[j]).wf() && p.queue[j].entity_id == entity
}

/// Where an entity stands once its head action completes: the next queued
/// segment's start, or the plan's goal when the head is the last leg.
pub open spec fn plan_destination(p: PlanView) -> Position {
    if p.queue.len() > 1 {
        match p.queue[1].payload {
            ActionPayload::MoveToPoint { segment } => segment.start,
        }
    } else {
        p.goal
    }
}

/// Every scheduled entity that has a status has a usable one.
pub open spec fn statuses_wf_for(
    s: Seq<(EntityId, PlanView)>,
    statuses: Seq<(EntityId, CharacterStatus)>,
) -> bool {
    forall|i: int|
        0 <= i < s.len() ==> match lookup(statuses, (#[trigger] s[i]).0) {
            Some(st) => st.wf(),
            None => true,
        }
}

/// How a movement request was resolved.
#[derive(Clone, Copy, PartialEq, Eq, Structural, Debug)]
pub enum ScheduleOutcome {
    /// New action states were enqueued.
    Scheduled,
    /// The intent is already satisfied; the entity is Idle.
    Completed,
    /// The intent is infeasible; the entity is Idle.
    Cancelled,
    /// The entity lacks a position or movement capability; the entity is Idle.
    MissingCapability,
}

/// What one tick does to one scheduled entity: `None` means the entity
/// becomes Idle, `Some` is its next plan.
pub open spec fn step_plan(
    entity: EntityId,
    p: PlanView,
    elapsed_ms: u64,
    positions: Seq<(EntityId, Position)>,
    statuses: Seq<(EntityId, CharacterStatus)>,
    map_path: &MapPath,
    ground: &Ground,
) -> Option<PlanView> {
    let head = p.queue[0];
    if head.remaining_ms > elapsed_ms {
        let stepped = ActionState {
            entity_id: head.entity_id,
            remaining_ms: (head.remaining_ms - elapsed_ms) as u64,
            total_ms: head.total_ms,
            payload: head.payload,
        };
        Some(PlanView { goal: p.goal, queue: p.queue.update(0, stepped) })
    } else if p.queue.len() > 1 {
        Some(PlanView { goal: p.goal, queue: p.queue.skip(1) })
    } else {
        match lookup(positions, entity) {
            None => None,
            Some(pos) => if lookup(statuses, entity) is None {
                None
            } else {
                match create_spec(entity, pos, p.goal, statuses, map_path, ground) {
                    CreatorResultView::Progressing(states) => Some(
                        PlanView { goal: p.goal, queue: states },
                    ),
                    _ => None,
                }
            },
        }
    }
}

/// One tick over every scheduled entity, in scheduling order; entities whose
/// step yields `None` become Idle and drop out.
pub open spec fn tick_all(
    s: Seq<(EntityId, PlanView)>,
    elapsed_ms: u64,
    positions: Seq<(EntityId, Position)>,
    statuses: Seq<(EntityId, CharacterStatus)>,
    map_path: &MapPath,
    ground: &Ground,
) -> Seq<(EntityId, PlanView)>
    decreases s.len(),
{
    if s.len() == 0 {
        Seq::empty()
    } else {
        let prefix = tick_all(s.drop_last(), elapsed_ms, positions, statuses, map_path, ground);
        match step_plan(
            s.last().0,
            s.last().1,
            elapsed_ms,
            positions,
            statuses,
            map_path,
            ground,
        ) {
            Some(p) => prefix.push((s.last().0, p)),
            None => prefix,
        }
    }
}

/// Arrival law: when an entity's last queued leg expires within the tick and
/// its (merged) position already stands at its goal — which the movement job
/// wrote when that leg became the head — the re-invoked Action Creator sees
/// start == end, returns `Complete`, and the entity leaves the schedule.
pub proof fn lemma_arrival_completes(
    entity: EntityId,
    p: PlanView,
    elapsed_ms: u64,
    positions: Seq<(EntityId, Position)>,
    statuses: Seq<(EntityId, CharacterStatus)>,
    map_path: &MapPath,
    ground: &Ground,
)
    requires
        p.queue.len() == 1,
        p.queue[0].remaining_ms <= elapsed_ms,
        lookup(positions, entity) == Some(p.goal),
    ensures
        step_plan(entity, p, elapsed_ms, positions, statuses, map_path, ground) is None,
{
    if lookup(statuses, entity) is Some {
        crate::action::lemma_create_trivial(entity, p.goal, p.goal, statuses, map_path, ground);
    }
}

/// Owner of every entity's active action queue.
pub struct ActionScheduler {
    entries: Vec<(EntityId, EntityPlan)>,
}

impl View for ActionScheduler {
    type V = Seq<(EntityId, PlanView)>;

    closed spec fn view(&self) -> Seq<(EntityId, PlanView)> {
        self.entries@.map_values(|e: (EntityId, EntityPlan)| (e.0, e.1@))
    }
}

/// Unique entities, each with a sound, non-empty plan.
pub open spec fn sched_wf(s: Seq<(EntityId, PlanView)>) -> bool {
    &&& unique_keys(s)
    &&& forall|i: int| 0 <= i < s.len() ==> plan_wf((#[trigger] s[i]).0, s[i].1)
}

impl ActionScheduler {
    pub open spec fn wf(&self) -> bool {
        sched_wf(self@)
    }

    /// The plan of `entity`, if it is scheduled.
    pub open spec fn spec_plan(&self, entity: EntityId) -> Option<PlanView> {
        lookup(self@, entity)
    }

    pub fn new() -> (r: ActionScheduler)
        ensures
            r@ =~= Seq::<(EntityId, PlanView)>::empty(),
            r.wf(),
    {
        ActionScheduler { entries: Vec::new() }
    }

    /// Idle means: no active action states for this entity.
    pub fn is_idle(&self, entity: EntityId) -> (r: bool)
        requires
            self.wf(),
        ensures
            r == (self.spec_plan(entity) is None),
    {
        self.find(entity).is_none()
    }

    /// Number of queued action states; zero for an Idle entity.
    pub fn queue_len(&self, entity: EntityId) -> (r: usize)
        requires
            self.wf(),
        ensures
            r == match self.spec_plan(entity) {
                Some(p) => p.queue.len(),
                None => 0int as nat,
            },
    {
        match self.find(entity) {
            Some(i) => self.entries[i].1.queue.len(),
            None => 0,
        }
    }

    /// The head action of `entity`'s queue, if it is scheduled.
    pub fn head_action(&self, entity: EntityId) -> (r: Option<ActionState>)
        requires
            self.wf(),
        ensures
            r == match self.spec_plan(entity) {
                Some(p) => Some(p.queue[0]),
                None => None::<ActionState>,
            },
    {
        match self.find(entity) {
            Some(i) => Some(self.entries[i].1.queue[0]),
            None => None,
        }
    }

    /// Number of scheduled (non-Idle) entities.
    pub fn len(&self) -> (r: usize)
        ensures
            r == self@.len(),
    {
        self.entries.len()
    }

    /// The entity scheduled at position `i` of the scheduling order.
    pub fn entity_at(&self, i: usize) -> (r: EntityId)
        requires
            i < self@.len(),
        ensures
            r == self@[i as int].0,
    {
        self.entries[i].0
    }

    /// The head action of the entity at position `i`.
    pub fn head_at(&self, i: usize) -> (r: ActionState)
        requires
            self.wf(),
            i < self@.len(),
        ensures
            r == self@[i as int].1.queue[0],
    {
        proof {
            assert(plan_wf((#[trigger] self@[i as int]).0, self@[i as int].1));
        }
        self.entries[i].1.queue[0]
    }

    /// Where the entity at position `i` stands once its head action completes.
    pub fn destination_at(&self, i: usize) -> (r: Position)
        requires
            self.wf(),
            i < self@.len(),
        ensures
            r == plan_destination(self@[i as int].1),
    {
        proof {
            assert(plan_wf((#[trigger] self@[i as int]).0, self@[i as int].1));
        }
        let plan = &self.entries[i].1;
        if plan.queue.len() > 1 {
            match plan.queue[1].payload {
                ActionPayload::MoveToPoint { segment } => segment.start,
            }
        } else {
            plan.goal
        }
    }

    /// Position of `entity`'s entry, if any.
    fn find(&self, entity: EntityId) -> (r: Option<usize>)
        requires
            self.wf(),
        ensures
            match r {
                Some(i) => i < self@.len() && self@[i as int].0 == entity && self.spec_plan(entity)
                    == Some(self@[i as int].1),
                None => self.spec_plan(entity) is None,
            },
    {
        let n = self.entries.len();
        for i in 0..n
            invariant
                n == self@.len(),
                self.wf(),
                forall|j: int| 0 <= j < i ==> (#[trigger] self@[j]).0 != entity,
        {
            if self.entries[i].0 == entity {
                proof {
                    lemma_lookup_index(self@, i as int);
                }
                return Some(i);
            }
        }
        proof {
            lemma_lookup_not_found(self@, entity);
        }
        None
    }

    /// Clear `entity`'s queue, if any: the entity becomes Idle.
    fn remove_entity(&mut self, entity: EntityId)
        requires
            old(self).wf(),
        ensures
            final(self).wf(),
            final(self)@ =~= kremove(old(self)@, entity),
    {
        let ghost s0 = self@;
        match self.find(entity) {
            Some(i) => {
                proof {
                    lemma_kremove_at(s0, i as int);
                    lemma_kremove_unique(s0, entity);
                }
                self.entries.remove(i);
                proof {
                    assert(self@ =~= s0.remove(i as int));
                    assert forall|j: int|
                        0 <= j < self@.len() implies plan_wf(
                        (#[trigger] self@[j]).0,
                        self@[j].1,
                    ) by {
                        if j < i {
                            assert(self@[j] == s0[j]);
                        } else {
                            assert(self@[j] == s0[j + 1]);
                        }
                    }
                }
            },
            None => {
                proof {
                    lemma_kremove_absent(s0, entity);
                }
            },
        }
    }

    /// Give `entity` a fresh plan, superseding any previous queue.
    fn set_plan(&mut self, entity: EntityId, plan: EntityPlan)
        requires
            old(self).wf(),
            plan_wf(entity, plan@),
        ensures
            final(self).wf(),
            final(self)@ =~= kupsert(old(self)@, entity, plan@),
    {
        let ghost s0 = self@;
        let ghost pv = plan@;
        self.remove_entity(entity);
        let ghost s1 = self@;
        self.entries.push((entity, plan));
        proof {
            assert(self@ =~= s1.push((entity, pv)));
            assert(self@ =~= kupsert(s0, entity, pv));
            lemma_kupsert_unique(s0, entity, pv);
            assert forall|j: int|
                0 <= j < self@.len() implies plan_wf((#[trigger] self@[j]).0, self@[j].1) by {
                if j < s1.len() {
                    assert(self@[j] == s1[j]);
                } else {
                    assert(self@[j] == (entity, pv));
                }
            }
        }
    }

    /// Resolve a movement request for `entity` towards `end`.
    ///
    /// Any queue built against a previous goal is discarded without partial
    /// application. A missing position or capability is surfaced, and the
    /// entity is left Idle, exactly as for a cancelled intent.
    pub fn request_move(
        &mut self,
        entity: EntityId,
        end: Position,
        positions: &ComponentGroup<Position>,
        statuses: &ComponentGroup<CharacterStatus>,
        map_path: &MapPath,
        ground: &Ground,
    ) -> (r: ScheduleOutcome)
        requires
            old(self).wf(),
            positions.wf(),
            statuses.wf(),
            map_path.wf(),
            ground.wf(),
            lookup(statuses@, entity) matches Some(st) ==> st.wf(),
        ensures
            final(self).wf(),
            match lookup(positions@, entity) {
                None => r == ScheduleOutcome::MissingCapability && final(self)@ =~= kremove(
                    old(self)@,
                    entity,
                ),
                Some(pos) => if lookup(statuses@, entity) is None {
                    r == ScheduleOutcome::MissingCapability && final(self)@ =~= kremove(
                        old(self)@,
                        entity,
                    )
                } else {
                    match create_spec(entity, pos, end, statuses@, map_path, ground) {
                        CreatorResultView::Cancel => r == ScheduleOutcome::Cancelled
                            && final(self)@ =~= kremove(old(self)@, entity),
                        CreatorResultView::Complete => r == ScheduleOutcome::Completed
                            && final(self)@ =~= kremove(old(self)@, entity),
                        CreatorResultView::Progressing(states) => r == ScheduleOutcome::Scheduled
                            && final(self)@ =~= kupsert(
                            old(self)@,
                            entity,
                            PlanView { goal: end, queue: states },
                        ),
                    }
                },
            },
    {
        let pos = match positions.get(entity) {
            Some(p) => *p,
            None => {
                self.remove_entity(entity);
                return ScheduleOutcome::MissingCapability;
            },
        };
        if !statuses.contains(entity) {
            self.remove_entity(entity);
            return ScheduleOutcome::MissingCapability;
        }
        match create(entity, pos, end, statuses, map_path, ground) {
            ActionCreatorResult::Cancel => {
                self.remove_entity(entity);
                ScheduleOutcome::Cancelled
            },
            ActionCreatorResult::Complete => {
                self.remove_entity(entity);
                ScheduleOutcome::Completed
            },
            ActionCreatorResult::Progressing { action_states } => {
                proof {
                    let states = action_states@;
                    assert forall|j: int|
                        0 <= j < states.len() implies (#[trigger] states[j]).wf()
                        && states[j].entity_id == entity by {
                        assert(states[j] == crate::action::spec_action_state(
                            entity,
                            lookup(statuses@, entity).unwrap().speed,
                            ground,
                            map_path.spec_search_paths(pos, end).unwrap()[j],
                        ));
                    }
                }
                self.set_plan(entity, EntityPlan { goal: end, queue: action_states });
                ScheduleOutcome::Scheduled
            },
        }
    }

    /// Advance every scheduled entity by `elapsed_ms`.
    ///
    /// The head action's remaining time is decremented; a finished head is
    /// popped; a drained queue re-invokes the Action Creator with the
    /// entity's current position and standing goal. A creator cancellation,
    /// completion or failure leaves that entity Idle and never aborts the
    /// tick for the others.
    pub fn tick(
        &mut self,
        elapsed_ms: u64,
        positions: &ComponentGroup<Position>,
        statuses: &ComponentGroup<CharacterStatus>,
        map_path: &MapPath,
        ground: &Ground,
    )
        requires
            old(self).wf(),
            positions.wf(),
            statuses.wf(),
            map_path.wf(),
            ground.wf(),
            statuses_wf_for(old(self)@, statuses@),
        ensures
            final(self).wf(),
            final(self)@ =~= tick_all(
                old(self)@,
                elapsed_ms,
                positions@,
                statuses@,
                map_path,
                ground,
            ),
    {
        let ghost s0 = self@;
        let n = self.entries.len();
        let mut k: usize = 0;
        let mut i: usize = 0;
        while k < n
            invariant
                positions.wf(),
                statuses.wf(),
                map_path.wf(),
                ground.wf(),
                statuses_wf_for(s0, statuses@),
                sched_wf(s0),
                n == s0.len(),
                k <= n,
                i == tick_all(s0.take(k as int), elapsed_ms, positions@, statuses@, map_path, ground).len(),
                i <= k,
                self@ =~= tick_all(
                    s0.take(k as int),
                    elapsed_ms,
                    positions@,
                    statuses@,
                    map_path,
                    ground,
                ) + s0.skip(k as int),
                sched_wf(self@),
            decreases n - k,
        {
            let ghost stepped_prefix = tick_all(
                s0.take(k as int),
                elapsed_ms,
                positions@,
                statuses@,
                map_path,
                ground,
            );
            let ghost pre_iter = self@;
            proof {
                assert(pre_iter =~= stepped_prefix + s0.skip(k as int));
                assert(s0.skip(k as int)[0] == s0[k as int]);
                assert(pre_iter[i as int] == s0[k as int]);
                assert(plan_wf(s0[k as int].0, s0[k as int].1));
            }
            let (entity, mut plan) = self.entries.remove(i);
            let ghost p0 = plan@;
            proof {
                assert((entity, p0) == s0[k as int]);
                assert(self@ =~= pre_iter.remove(i as int));
                assert(s0.skip(k as int).skip(1) =~= s0.skip(k + 1));
                assert(pre_iter.remove(i as int) =~= stepped_prefix + s0.skip(k + 1));
                assert(self@ =~= stepped_prefix + s0.skip(k + 1));
            }
            let head = plan.queue[0];
            let mut keep: bool = false;
            if head.remaining_ms > elapsed_ms {
                let stepped = ActionState {
                    entity_id: head.entity_id,
                    remaining_ms: head.remaining_ms - elapsed_ms,
                    total_ms: head.total_ms,
                    payload: head.payload,
                };
                plan.queue.remove(0);
                plan.queue.insert(0, stepped);
                proof {
                    assert(plan@.queue =~= p0.queue.update(0, stepped));
                }
                keep = true;
            } else {
                plan.queue.remove(0);
                proof {
                    assert(plan@.queue =~= p0.queue.skip(1));
                }
                if plan.queue.len() > 0 {
                    keep = true;
                } else {
                    match positions.get(entity) {
                        None => {},
                        Some(pos_ref) => {
                            let pos = *pos_ref;
                            if statuses.contains(entity) {
                                proof {
                                    assert(match lookup(statuses@, (#[trigger] s0[k as int]).0) {
                                        Some(st) => st.wf(),
                                        None => true,
                                    });
                                }
                                match create(entity, pos, plan.goal, statuses, map_path, ground) {
                                    ActionCreatorResult::Progressing { action_states } => {
                                        proof {
                                            let states = action_states@;
                                            assert forall|j: int|
                                                0 <= j < states.len() implies (
                                            #[trigger] states[j]).wf() && states[j].entity_id
                                                == entity by {
                                                assert(states[j]
                                                    == crate::action::spec_action_state(
                                                    entity,
                                                    lookup(statuses@, entity).unwrap().speed,
                                                    ground,
                                                    map_path.spec_search_paths(
                                                        pos,
                                                        plan.goal,
                                                    ).unwrap()[j],
                                                ));
                                            }
                                        }
                                        plan.queue = action_states;
                                        keep = true;
                                    },
                                    _ => {},
                                }
                            }
                        },
                    }
                }
            }
            let ghost step = step_plan(
                entity,
                p0,
                elapsed_ms,
                positions@,
                statuses@,
                map_path,
                ground,
            );
            if keep {
                proof {
                    assert(step == Some(plan@));
                    assert(plan_wf(entity, plan@));
                }
                self.entries.insert(i, (entity, plan));
                proof {
                    assert(self@ =~= (stepped_prefix + s0.skip(k + 1)).insert(
                        i as int,
                        (entity, plan@),
                    ));
                    assert(self@ =~= stepped_prefix.push((entity, plan@)) + s0.skip(k + 1));
                    // The keys are those of the pre-iteration sequence, so
                    // uniqueness carries over; each plan is still sound.
                    assert(self@.len() == pre_iter.len());
                    assert(forall|j: int|
                        0 <= j < self@.len() ==> (#[trigger] self@[j]).0 == pre_iter[j].0);
                    lemma_unique_same_keys(pre_iter, self@);
                    assert forall|j: int|
                        0 <= j < self@.len() implies plan_wf(
                        (#[trigger] self@[j]).0,
                        self@[j].1,
                    ) by {
                        if j != i {
                            assert(self@[j] == pre_iter[j]);
                        }
                    }
                }
                i += 1;
            } else {
                proof {
                    assert(step is None);
                    assert(self@ =~= pre_iter.remove(i as int));
                    lemma_remove_unique(pre_iter, i as int);
                    assert forall|j: int|
                        0 <= j < self@.len() implies plan_wf(
                        (#[trigger] self@[j]).0,
                        self@[j].1,
                    ) by {
                        if j < i {
                            assert(self@[j] == pre_iter[j]);
                        } else {
                            assert(self@[j] == pre_iter[j + 1]);
                        }
                    }
                }
            }
            proof {
                assert(s0.take(k + 1).drop_last() =~= s0.take(k as int));
                assert(s0.take(k + 1).last() == s0[k as int]);
                let next = tick_all(
                    s0.take(k + 1),
                    elapsed_ms,
                    positions@,
                    statuses@,
                    map_path,
                    ground,
                );
                assert(next == match step {
                    Some(p) => stepped_prefix.push((entity, p)),
                    None => stepped_prefix,
                });
                assert(self@ =~= next + s0.skip(k + 1));
            }
            k += 1;
        }
        proof {
            assert(s0.take(n as int) =~= s0);
            assert(s0.skip(n as int) =~= Seq::<(EntityId, PlanView)>::empty());
            assert(self@ =~= tick_all(s0, elapsed_ms, positions@, statuses@, map_path, ground));
        }
    }
}

} // verus!
