use sim_core::action::create;
use sim_core::action::movement_time;
use sim_core::action::try_create;
use sim_core::action::ActionCreatorResult;
use sim_core::action::ActionError;
use sim_core::action::ActionPayload;
use sim_core::action::bring_item_to_destination;
use sim_core::components::Angle;
use sim_core::components::CharacterStatus;
use sim_core::components::ComponentGroup;
use sim_core::components::Position;
use sim_core::pathfind::MapPath;
use sim_core::pathfind::PathSegment;
use sim_core::terrain::Ground;

fn pos(x: i64, y: i64) -> Position {
    Position { x, y }
}

fn world_fixture() -> (ComponentGroup<Position>, ComponentGroup<CharacterStatus>, MapPath, Ground) {
    let mut positions = ComponentGroup::new();
    positions.set(1, pos(0, 0));
    let mut statuses = ComponentGroup::new();
    statuses.set(1, CharacterStatus { speed: 5 });
    let mut map_path = MapPath::new();
    map_path.add_route(
        pos(0, 0),
        pos(10, 0),
        vec![PathSegment { start: pos(0, 0), length: 10 }],
    );
    let ground = Ground::new(1);
    (positions, statuses, map_path, ground)
}

#[test]
fn create_reachable_progresses_in_path_order() {
    let mut statuses = ComponentGroup::new();
    statuses.set(7, CharacterStatus { speed: 2 });
    let mut map_path = MapPath::new();
    let seg_a = PathSegment { start: pos(0, 0), length: 4 };
    let seg_b = PathSegment { start: pos(4, 0), length: 6 };
    map_path.add_route(pos(0, 0), pos(10, 0), vec![seg_a, seg_b]);
    let ground = Ground::new(1);
    match create(7, pos(0, 0), pos(10, 0), &statuses, &map_path, &ground) {
        ActionCreatorResult::Progressing { action_states } => {
            assert_eq!(action_states.len(), 2);
            assert_eq!(action_states[0].payload, ActionPayload::MoveToPoint { segment: seg_a });
            assert_eq!(action_states[1].payload, ActionPayload::MoveToPoint { segment: seg_b });
            assert_eq!(action_states[0].entity_id, 7);
            // 4 units at 2 units/s over cost 1: 2000 ms; then 6 units: 3000 ms.
            assert_eq!(action_states[0].remaining_ms, 2000);
            assert_eq!(action_states[1].remaining_ms, 3000);
        },
        _ => panic!("expected Progressing"),
    }
}

#[test]
fn create_equal_endpoints_completes() {
    let (_, statuses, map_path, ground) = world_fixture();
    match create(1, pos(3, 3), pos(3, 3), &statuses, &map_path, &ground) {
        ActionCreatorResult::Complete => {},
        _ => panic!("expected Complete"),
    }
}

#[test]
fn create_zero_length_path_completes() {
    let mut statuses = ComponentGroup::new();
    statuses.set(1, CharacterStatus { speed: 5 });
    let mut map_path = MapPath::new();
    map_path.add_route(pos(0, 0), pos(1, 0), Vec::new());
    let ground = Ground::new(1);
    match create(1, pos(0, 0), pos(1, 0), &statuses, &map_path, &ground) {
        ActionCreatorResult::Complete => {},
        _ => panic!("expected Complete, never an empty Progressing"),
    }
}

#[test]
fn create_unreachable_cancels() {
    let (_, statuses, map_path, ground) = world_fixture();
    match create(1, pos(0, 0), pos(99, 99), &statuses, &map_path, &ground) {
        ActionCreatorResult::Cancel => {},
        _ => panic!("expected Cancel"),
    }
}

#[test]
fn create_is_deterministic() {
    let (_, statuses, map_path, ground) = world_fixture();
    let first = create(1, pos(0, 0), pos(10, 0), &statuses, &map_path, &ground);
    let second = create(1, pos(0, 0), pos(10, 0), &statuses, &map_path, &ground);
    match (first, second) {
        (
            ActionCreatorResult::Progressing { action_states: a },
            ActionCreatorResult::Progressing { action_states: b },
        ) => {
            assert_eq!(a, b);
        },
        _ => panic!("expected Progressing twice"),
    }
}

#[test]
fn try_create_surfaces_missing_capability() {
    let (_, statuses, map_path, ground) = world_fixture();
    match try_create(999, pos(0, 0), pos(10, 0), &statuses, &map_path, &ground) {
        Err(ActionError::MissingCapability) => {},
        _ => panic!("expected MissingCapability"),
    }
}

#[test]
fn movement_time_formula_and_monotonicity() {
    let ground = Ground::new(1);
    // 10 units at 5 units/s over flat cost-1 ground: 2.0 seconds.
    assert_eq!(movement_time(CharacterStatus { speed: 5 }, &ground, pos(0, 0), 10), 2000);
    // Same trip at 2 units/s over cost-3 terrain: 15.0 seconds.
    let mut rough = Ground::new(1);
    rough.set_cost(pos(0, 0), 3);
    assert_eq!(movement_time(CharacterStatus { speed: 2 }, &rough, pos(0, 0), 10), 15000);
    // Higher cost or lower speed never shortens a leg.
    let slow = movement_time(CharacterStatus { speed: 2 }, &rough, pos(0, 0), 10);
    let fast = movement_time(CharacterStatus { speed: 5 }, &ground, pos(0, 0), 10);
    assert!(fast <= slow);
}

#[test]
fn ground_cost_overrides_default() {
    let mut ground = Ground::new(2);
    ground.set_cost(pos(1, 1), 7);
    assert_eq!(ground.cost_at(pos(1, 1)), 7);
    assert_eq!(ground.cost_at(pos(0, 0)), 2);
    // A later override for the same cell supersedes an earlier one.
    ground.set_cost(pos(1, 1), 9);
    assert_eq!(ground.cost_at(pos(1, 1)), 9);
}

#[test]
fn component_group_set_get_remove() {
    let mut group: ComponentGroup<Position> = ComponentGroup::new();
    assert!(!group.contains(4));
    group.set(4, pos(1, 2));
    assert_eq!(group.get(4), Some(&pos(1, 2)));
    group.set(4, pos(3, 4));
    assert_eq!(group.get(4), Some(&pos(3, 4)));
    assert_eq!(group.len(), 1);
    assert!(group.remove(4));
    assert_eq!(group.get(4), None);
    assert!(!group.remove(4));
}

#[test]
fn bring_item_chains_both_legs() {
    let mut positions = ComponentGroup::new();
    positions.set(1, pos(0, 0));
    positions.set(2, pos(5, 0));
    let mut statuses = ComponentGroup::new();
    statuses.set(1, CharacterStatus { speed: 5 });
    let mut map_path = MapPath::new();
    map_path.add_route(pos(0, 0), pos(5, 0), vec![PathSegment { start: pos(0, 0), length: 5 }]);
    map_path.add_route(pos(5, 0), pos(9, 0), vec![PathSegment { start: pos(5, 0), length: 4 }]);
    let ground = Ground::new(1);
    match bring_item_to_destination(1, 2, pos(9, 0), &positions, &statuses, &map_path, &ground) {
        Ok(ActionCreatorResult::Progressing { action_states }) => {
            assert_eq!(action_states.len(), 2);
            assert_eq!(action_states[0].remaining_ms, 1000);
            assert_eq!(action_states[1].remaining_ms, 800);
        },
        _ => panic!("expected a two-leg Progressing"),
    }
}

#[test]
fn bring_item_cancels_when_a_link_cancels() {
    let mut positions = ComponentGroup::new();
    positions.set(1, pos(0, 0));
    positions.set(2, pos(5, 0));
    let mut statuses = ComponentGroup::new();
    statuses.set(1, CharacterStatus { speed: 5 });
    let mut map_path = MapPath::new();
    map_path.add_route(pos(0, 0), pos(5, 0), vec![PathSegment { start: pos(0, 0), length: 5 }]);
    let ground = Ground::new(1);
    match bring_item_to_destination(1, 2, pos(9, 0), &positions, &statuses, &map_path, &ground) {
        Ok(ActionCreatorResult::Cancel) => {},
        _ => panic!("expected Cancel: the second leg is unreachable"),
    }
}

#[test]
fn bring_item_missing_position_is_an_error() {
    let (positions, statuses, map_path, ground) = world_fixture();
    match bring_item_to_destination(1, 42, pos(9, 0), &positions, &statuses, &map_path, &ground) {
        Err(ActionError::MissingCapability) => {},
        _ => panic!("expected MissingCapability for the absent item"),
    }
}

#[test]
fn angles_are_plain_data() {
    let mut group: ComponentGroup<Angle> = ComponentGroup::new();
    group.set(1, Angle { millidegrees: 359_000 });
    assert_eq!(group.get(1), Some(&Angle { millidegrees: 359_000 }));
}
