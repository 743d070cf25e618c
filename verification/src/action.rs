//! Action creation: turning a movement intent into time-boxed action states.
//!
//! An Action Creator is a pure decision function over the entity's movement
//! capability, the terrain, and the pathfinder's answer for (start, end). It
//! never touches shared state; identical inputs give identical output.

use vstd::prelude::*;

use crate::assoc::lookup;
use crate::components::CharacterStatus;
use crate::components::ComponentGroup;
use crate::components::EntityId;
use crate::components::Position;
use crate::pathfind::MapPath;
use crate::pathfind::MAX_SEGMENT_LENGTH;
use crate::pathfind::PathSegment;
use crate::terrain::Ground;
use crate::terrain::MAX_TERRAIN_COST;

verus! {

/// Milliseconds in one second of traversal time.
pub const MILLIS_PER_SECOND: u64 = 1_000;

/// One in-flight, time-boxed unit of behaviour for one entity.
#[derive(Clone, Copy, PartialEq, Eq, Structural, Debug)]
pub struct ActionState {
    pub entity_id: EntityId,
    /// Milliseconds of this action still to elapse.
    pub remaining_ms: u64,
    /// Milliseconds this action takes in all.
    pub total_ms: u64,
    pub payload: ActionPayload,
}

/// The closed set of known action kinds and their payloads.
#[derive(Clone, Copy, PartialEq, Eq, Structural, Debug)]
pub enum ActionPayload {
    MoveToPoint { segment: PathSegment },
}

impl ActionState {
    pub open spec fn wf(self) -> bool {
        self.remaining_ms <= self.total_ms
    }
}

/// Outcome of invoking an Action Creator.
pub enum ActionCreatorResult {
    /// The intent is infeasible; drop all pending actions for the entity.
    Cancel,
    /// The intent is already satisfied; nothing to schedule.
    Complete,
    /// New action states to enqueue, in traversal order, never empty.
    Progressing { action_states: Vec<ActionState> },
}

/// The mathematical shape of an Action Creator outcome.
pub ghost enum CreatorResultView {
    Cancel,
    Complete,
    Progressing(Seq<ActionState>),
}

impl View for ActionCreatorResult {
    type V = CreatorResultView;

    open spec fn view(&self) -> CreatorResultView {
        match self {
            ActionCreatorResult::Cancel => CreatorResultView::Cancel,
            ActionCreatorResult::Complete => CreatorResultView::Complete,
            ActionCreatorResult::Progressing { action_states } => CreatorResultView::Progressing(
                action_states@,
            ),
        }
    }
}

impl CreatorResultView {
    /// `Progressing` never carries an empty sequence, and its states are sound.
    pub open spec fn wf(self) -> bool {
        match self {
            CreatorResultView::Progressing(states) => states.len() > 0 && forall|i: int|
                0 <= i < states.len() ==> (#[trigger] states[i]).wf(),
            _ => true,
        }
    }
}

/// Why an Action Creator invocation itself failed.
#[derive(Clone, Copy, PartialEq, Eq, Structural, Debug)]
pub enum ActionError {
    /// The entity lacks a component the requested action needs.
    MissingCapability,
}

/// Milliseconds to traverse `length` world units at `speed` units per second
/// over terrain with cost multiplier `cost`.
pub open spec fn movement_time_ms(speed: u64, cost: u64, length: u64) -> u64 {
    (((length as int) * (cost as int) * (MILLIS_PER_SECOND as int)) / (speed as int)) as u64
}

/// The action state created for one path segment.
pub open spec fn spec_action_state(
    entity: EntityId,
    speed: u64,
    ground: &Ground,
    seg: PathSegment,
) -> ActionState {
    let t = movement_time_ms(speed, ground.spec_cost_at(seg.start), seg.length);
    ActionState {
        entity_id: entity,
        remaining_ms: t,
        total_ms: t,
        payload: ActionPayload::MoveToPoint { segment: seg },
    }
}

/// One action state per path segment, in traversal order.
pub open spec fn make_states(
    entity: EntityId,
    segs: Seq<PathSegment>,
    speed: u64,
    ground: &Ground,
) -> Seq<ActionState> {
    segs.map_values(|seg: PathSegment| spec_action_state(entity, speed, ground, seg))
}

/// What `create` decides, as a function of its inputs alone.
pub open spec fn create_spec(
    entity: EntityId,
    start: Position,
    end: Position,
    statuses: Seq<(EntityId, CharacterStatus)>,
    map_path: &MapPath,
    ground: &Ground,
) -> CreatorResultView {
    match map_path.spec_search_paths(start, end) {
        None => CreatorResultView::Cancel,
        Some(segs) => if segs.len() == 0 {
            CreatorResultView::Complete
        } else {
            CreatorResultView::Progressing(
                make_states(entity, segs, lookup(statuses, entity).unwrap().speed, ground),
            )
        },
    }
}

/// Traversal time of one segment, from entity speed and terrain cost at the
/// segment's start.
pub fn movement_time(status: CharacterStatus, ground: &Ground, at: Position, length: u64) -> (r:
    u64)
    requires
        status.wf(),
        ground.wf(),
        length <= MAX_SEGMENT_LENGTH,
    ensures
        r == movement_time_ms(status.speed, ground.spec_cost_at(at), length),
{
    let cost = ground.cost_at(at);
    assert((length as int) * (cost as int) <= (MAX_SEGMENT_LENGTH as int) * (MAX_TERRAIN_COST
        as int)) by (nonlinear_arith)
        requires
            length <= MAX_SEGMENT_LENGTH,
            cost <= MAX_TERRAIN_COST,
    ;
    let distance_cost = length * cost;
    let scaled = distance_cost * MILLIS_PER_SECOND;
    scaled / status.speed
}

/// Longer terrain cost never shortens a traversal, and higher speed never
/// lengthens one.
pub proof fn lemma_movement_time_monotonic(
    speed_fast: u64,
    speed_slow: u64,
    cost_low: u64,
    cost_high: u64,
    length: u64,
)
    requires
        1 <= speed_slow <= speed_fast,
        cost_low <= cost_high <= MAX_TERRAIN_COST,
        length <= MAX_SEGMENT_LENGTH,
    ensures
        movement_time_ms(speed_fast, cost_low, length) <= movement_time_ms(
            speed_slow,
            cost_high,
            length,
        ),
{
    let num_low = (length as int) * (cost_low as int) * (MILLIS_PER_SECOND as int);
    let num_high = (length as int) * (cost_high as int) * (MILLIS_PER_SECOND as int);
    assert(0 <= (length as int) * (cost_low as int) * 1000 <= (length as int) * (cost_high as int)
        * 1000 <= 1_000_000_000_000) by (nonlinear_arith)
        requires
            cost_low <= cost_high <= 1_000,
            0 <= length <= 1_000_000,
    ;
    vstd::arithmetic::div_mod::lemma_div_is_ordered(num_low, num_high, speed_fast as int);
    vstd::arithmetic::div_mod::lemma_div_is_ordered_by_denominator(
        num_high,
        speed_slow as int,
        speed_fast as int,
    );
    vstd::arithmetic::div_mod::lemma_div_is_ordered(0, num_low, speed_fast as int);
    vstd::arithmetic::div_mod::lemma_div_is_ordered(
        num_high,
        1_000_000_000_000,
        speed_slow as int,
    );
    vstd::arithmetic::div_mod::lemma_div_is_ordered_by_denominator(
        1_000_000_000_000,
        1,
        speed_slow as int,
    );
}

/// Decide what, if anything, to schedule for a movement intent.
///
/// The entity must hold a movement capability (`CharacterStatus`); that is the
/// caller's obligation. Unreachable endpoints cancel the intent; an already
/// satisfied intent completes; otherwise one action state per path segment is
/// produced, in traversal order.
pub fn create(
    entity_id: EntityId,
    start: Position,
    end: Position,
    character_status: &ComponentGroup<CharacterStatus>,
    map_path: &MapPath,
    ground: &Ground,
) -> (r: ActionCreatorResult)
    requires
        character_status.wf(),
        map_path.wf(),
        ground.wf(),
        character_status.spec_get(entity_id) is Some,
        character_status.spec_get(entity_id).unwrap().wf(),
    ensures
        r@ == create_spec(entity_id, start, end, character_status@, map_path, ground),
        r@.wf(),
{
    let status = *character_status.get(entity_id).unwrap();
    if start == end {
        return ActionCreatorResult::Complete;
    }
    match map_path.search_paths(start, end) {
        None => ActionCreatorResult::Cancel,
        Some(segs) => {
            if segs.len() == 0 {
                ActionCreatorResult::Complete
            } else {
                proof {
                    map_path.lemma_search_result_wf(start, end);
                }
                let ghost expected = make_states(entity_id, segs@, status.speed, ground);
                let n = segs.len();
                let mut states: Vec<ActionState> = Vec::new();
                for i in 0..n
                    invariant
                        n == segs@.len(),
                        status.wf(),
                        ground.wf(),
                        forall|j: int| 0 <= j < n ==> (#[trigger] segs@[j]).wf(),
                        expected == make_states(entity_id, segs@, status.speed, ground),
                        states@.len() == i,
                        forall|j: int| 0 <= j < i ==> states@[j] == expected[j],
                {
                    let seg = segs[i];
                    let t = movement_time(status, ground, seg.start, seg.length);
                    states.push(
                        ActionState {
                            entity_id,
                            remaining_ms: t,
                            total_ms: t,
                            payload: ActionPayload::MoveToPoint { segment: seg },
                        },
                    );
                    proof {
                        assert(states@[i as int] == expected[i as int]);
                    }
                }
                proof {
                    assert(states@ =~= expected);
                }
                ActionCreatorResult::Progressing { action_states: states }
            }
        },
    }
}

/// `create`, with the missing-capability precondition surfaced as an error
/// instead of assumed: the scheduler treats the error as a cancellation.
pub fn try_create(
    entity_id: EntityId,
    start: Position,
    end: Position,
    character_status: &ComponentGroup<CharacterStatus>,
    map_path: &MapPath,
    ground: &Ground,
) -> (r: Result<ActionCreatorResult, ActionError>)
    requires
        character_status.wf(),
        map_path.wf(),
        ground.wf(),
        character_status.spec_get(entity_id) matches Some(st) ==> st.wf(),
    ensures
        match r {
            Ok(res) => character_status.spec_get(entity_id) is Some && res@ == create_spec(
                entity_id,
                start,
                end,
                character_status@,
                map_path,
                ground,
            ) && res@.wf(),
            Err(e) => character_status.spec_get(entity_id) is None && e
                == ActionError::MissingCapability,
        },
{
    if character_status.contains(entity_id) {
        Ok(create(entity_id, start, end, character_status, map_path, ground))
    } else {
        Err(ActionError::MissingCapability)
    }
}

/// Every status a group holds is usable for movement.
pub open spec fn statuses_all_wf(s: Seq<(EntityId, CharacterStatus)>) -> bool {
    forall|i: int| 0 <= i < s.len() ==> (#[trigger] s[i]).1.wf()
}

/// A status looked up in an all-sound group is itself sound.
pub proof fn lemma_status_lookup_wf(s: Seq<(EntityId, CharacterStatus)>, entity: EntityId)
    requires
        statuses_all_wf(s),
        lookup(s, entity) is Some,
    ensures
        lookup(s, entity).unwrap().wf(),
{
    crate::assoc::lemma_lookup_member(s, entity, lookup(s, entity).unwrap());
}

/// A composite intent cancels as soon as one of its links cancels.
pub open spec fn chain_cancelled(
    entity: EntityId,
    legs: Seq<(Position, Position)>,
    statuses: Seq<(EntityId, CharacterStatus)>,
    map_path: &MapPath,
    ground: &Ground,
) -> bool {
    exists|i: int|
        0 <= i < legs.len() && create_spec(
            entity,
            (#[trigger] legs[i]).0,
            legs[i].1,
            statuses,
            map_path,
            ground,
        ) is Cancel
}

/// The concatenation of every link's progressing states, in dependency order.
pub open spec fn chain_states(
    entity: EntityId,
    legs: Seq<(Position, Position)>,
    statuses: Seq<(EntityId, CharacterStatus)>,
    map_path: &MapPath,
    ground: &Ground,
) -> Seq<ActionState>
    decreases legs.len(),
{
    if legs.len() == 0 {
        Seq::empty()
    } else {
        chain_states(entity, legs.drop_last(), statuses, map_path, ground) + match create_spec(
            entity,
            legs.last().0,
            legs.last().1,
            statuses,
            map_path,
            ground,
        ) {
            CreatorResultView::Progressing(s) => s,
            _ => Seq::empty(),
        }
    }
}

/// What a chained Action Creator decides: `Cancel` if any link cancels,
/// `Complete` if nothing is left to do, else all progressing states in order.
pub open spec fn chain_result_spec(
    entity: EntityId,
    legs: Seq<(Position, Position)>,
    statuses: Seq<(EntityId, CharacterStatus)>,
    map_path: &MapPath,
    ground: &Ground,
) -> CreatorResultView {
    if chain_cancelled(entity, legs, statuses, map_path, ground) {
        CreatorResultView::Cancel
    } else if chain_states(entity, legs, statuses, map_path, ground).len() == 0 {
        CreatorResultView::Complete
    } else {
        CreatorResultView::Progressing(chain_states(entity, legs, statuses, map_path, ground))
    }
}

/// Chain one Action Creator invocation per leg into a composite intent.
pub fn create_chain(
    entity_id: EntityId,
    legs: &Vec<(Position, Position)>,
    character_status: &ComponentGroup<CharacterStatus>,
    map_path: &MapPath,
    ground: &Ground,
) -> (r: ActionCreatorResult)
    requires
        character_status.wf(),
        map_path.wf(),
        ground.wf(),
        character_status.spec_get(entity_id) is Some,
        character_status.spec_get(entity_id).unwrap().wf(),
    ensures
        r@ == chain_result_spec(entity_id, legs@, character_status@, map_path, ground),
        r@.wf(),
{
    let n = legs.len();
    let mut states: Vec<ActionState> = Vec::new();
    for i in 0..n
        invariant
            n == legs@.len(),
            character_status.wf(),
            map_path.wf(),
            ground.wf(),
            character_status.spec_get(entity_id) is Some,
            character_status.spec_get(entity_id).unwrap().wf(),
            forall|j: int|
                0 <= j < i ==> !(create_spec(
                    entity_id,
                    (#[trigger] legs@[j]).0,
                    legs@[j].1,
                    character_status@,
                    map_path,
                    ground,
                ) is Cancel),
            states@ == chain_states(
                entity_id,
                legs@.take(i as int),
                character_status@,
                map_path,
                ground,
            ),
            forall|j: int| 0 <= j < states@.len() ==> (#[trigger] states@[j]).wf(),
    {
        let leg = legs[i];
        let ghost pre = states@;
        match create(entity_id, leg.0, leg.1, character_status, map_path, ground) {
            ActionCreatorResult::Cancel => {
                return ActionCreatorResult::Cancel;
            },
            ActionCreatorResult::Complete => {},
            ActionCreatorResult::Progressing { action_states } => {
                let mut extra = action_states;
                states.append(&mut extra);
            },
        }
        proof {
            assert(legs@.take(i + 1).drop_last() =~= legs@.take(i as int));
            assert(legs@.take(i + 1).last() == legs@[i as int]);
            assert(states@ =~= chain_states(
                entity_id,
                legs@.take(i + 1),
                character_status@,
                map_path,
                ground,
            ));
        }
    }
    proof {
        assert(legs@.take(n as int) =~= legs@);
    }
    if states.len() == 0 {
        ActionCreatorResult::Complete
    } else {
        ActionCreatorResult::Progressing { action_states: states }
    }
}

/// What `bring_item_to_destination` decides when both positions are known:
/// move to the item, then move it on to the destination.
pub open spec fn bring_item_spec(
    entity: EntityId,
    item_entity: EntityId,
    destination: Position,
    positions: Seq<(EntityId, Position)>,
    statuses: Seq<(EntityId, CharacterStatus)>,
    map_path: &MapPath,
    ground: &Ground,
) -> CreatorResultView {
    let entity_pos = lookup(positions, entity).unwrap();
    let item_pos = lookup(positions, item_entity).unwrap();
    chain_result_spec(
        entity,
        seq![(entity_pos, item_pos), (item_pos, destination)],
        statuses,
        map_path,
        ground,
    )
}

/// Composite intent: walk to an item, then carry it to a destination.
pub fn bring_item_to_destination(
    entity_id: EntityId,
    item_entity_id: EntityId,
    destination: Position,
    positions: &ComponentGroup<Position>,
    character_status: &ComponentGroup<CharacterStatus>,
    map_path: &MapPath,
    ground: &Ground,
) -> (r: Result<ActionCreatorResult, ActionError>)
    requires
        positions.wf(),
        character_status.wf(),
        map_path.wf(),
        ground.wf(),
        character_status.spec_get(entity_id) matches Some(st) ==> st.wf(),
    ensures
        match r {
            Ok(res) => positions.spec_get(entity_id) is Some && positions.spec_get(item_entity_id)
                is Some && character_status.spec_get(entity_id) is Some && res@ == bring_item_spec(
                entity_id,
                item_entity_id,
                destination,
                positions@,
                character_status@,
                map_path,
                ground,
            ) && res@.wf(),
            Err(e) => e == ActionError::MissingCapability && (positions.spec_get(entity_id) is None
                || positions.spec_get(item_entity_id) is None || character_status.spec_get(
                entity_id,
            ) is None),
        },
{
    let entity_pos = match positions.get(entity_id) {
        Some(p) => *p,
        None => {
            return Err(ActionError::MissingCapability);
        },
    };
    let item_pos = match positions.get(item_entity_id) {
        Some(p) => *p,
        None => {
            return Err(ActionError::MissingCapability);
        },
    };
    if !character_status.contains(entity_id) {
        return Err(ActionError::MissingCapability);
    }
    let legs = vec![(entity_pos, item_pos), (item_pos, destination)];
    let r = create_chain(entity_id, &legs, character_status, map_path, ground);
    proof {
        assert(legs@ =~= seq![(entity_pos, item_pos), (item_pos, destination)]);
    }
    Ok(r)
}

/// For reachable endpoints with a non-trivial path, the creator progresses
/// with one action state per path segment, in path order, never empty.
pub proof fn lemma_create_reachable(
    entity_id: EntityId,
    start: Position,
    end: Position,
    statuses: Seq<(EntityId, CharacterStatus)>,
    map_path: &MapPath,
    ground: &Ground,
)
    requires
        map_path.spec_search_paths(start, end) matches Some(segs) && segs.len() > 0,
    ensures
        create_spec(entity_id, start, end, statuses, map_path, ground) matches CreatorResultView::Progressing(states) && {
            let segs = map_path.spec_search_paths(start, end).unwrap();
            &&& states.len() == segs.len()
            &&& states.len() > 0
            &&& forall|i: int|
                0 <= i < states.len() ==> (#[trigger] states[i]).payload
                    == ActionPayload::MoveToPoint { segment: segs[i] }
        },
{
}

/// For equal endpoints, or a path with no segments, the creator completes:
/// it never progresses with an empty sequence.
pub proof fn lemma_create_trivial(
    entity_id: EntityId,
    start: Position,
    end: Position,
    statuses: Seq<(EntityId, CharacterStatus)>,
    map_path: &MapPath,
    ground: &Ground,
)
    requires
        start == end || (map_path.spec_search_paths(start, end) matches Some(segs) && segs.len()
            == 0),
    ensures
        create_spec(entity_id, start, end, statuses, map_path, ground)
            is Complete,
{
}

/// For unreachable endpoints the creator cancels the intent.
pub proof fn lemma_create_unreachable(
    entity_id: EntityId,
    start: Position,
    end: Position,
    statuses: Seq<(EntityId, CharacterStatus)>,
    map_path: &MapPath,
    ground: &Ground,
)
    requires
        map_path.spec_search_paths(start, end) is None,
    ensures
        create_spec(entity_id, start, end, statuses, map_path, ground) is Cancel,
{
}

/// Two Action Creator invocations with identical inputs decide identically:
/// the outcome is a function of the inputs and of nothing else.
pub proof fn lemma_create_deterministic(
    r1: CreatorResultView,
    r2: CreatorResultView,
    entity_id: EntityId,
    start: Position,
    end: Position,
    statuses: Seq<(EntityId, CharacterStatus)>,
    map_path: &MapPath,
    ground: &Ground,
)
    requires
        r1 == create_spec(entity_id, start, end, statuses, map_path, ground),
        r2 == create_spec(entity_id, start, end, statuses, map_path, ground),
    ensures
        r1 == r2,
{
}

} // verus!
