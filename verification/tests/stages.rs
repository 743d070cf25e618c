use sim_core::command::CommandBuffer;
use sim_core::command::CommandBufferEntry;
use sim_core::components::Angle;
use sim_core::components::CharacterStatus;
use sim_core::components::ComponentGroup;
use sim_core::components::Position;
use sim_core::job::build_render_batch;
use sim_core::job::merge_stage;
use sim_core::job::run_stage;
use sim_core::job::JobError;
use sim_core::job::RenderJob;
use sim_core::job::StageError;
use sim_core::job::SystemJob;
use sim_core::job::WorldState;
use sim_core::pathfind::MapPath;
use sim_core::pathfind::PathSegment;
use sim_core::scheduler::ActionScheduler;
use sim_core::scheduler::ScheduleOutcome;
use sim_core::scene::GameScene;
use sim_core::scene::SceneControlFlow;
use sim_core::scene::SceneEvent;
use sim_core::scene::FileScene;
use sim_core::terrain::Ground;

fn pos(x: i64, y: i64) -> Position {
    Position { x, y }
}

fn flat_world_one_mover() -> (ActionScheduler, WorldState, MapPath, Ground) {
    let mut world = WorldState::new();
    world.positions.set(1, pos(0, 0));
    world.statuses.set(1, CharacterStatus { speed: 5 });
    let mut map_path = MapPath::new();
    map_path.add_route(
        pos(0, 0),
        pos(10, 0),
        vec![PathSegment { start: pos(0, 0), length: 10 }],
    );
    let ground = Ground::new(1);
    let mut scheduler = ActionScheduler::new();
    let outcome = scheduler.request_move(
        1,
        pos(10, 0),
        &world.positions,
        &world.statuses,
        &map_path,
        &ground,
    );
    assert_eq!(outcome, ScheduleOutcome::Scheduled);
    (scheduler, world, map_path, ground)
}

#[test]
fn buffer_last_write_wins() {
    let mut buffer: CommandBuffer<Position> = CommandBuffer::new();
    buffer.record(CommandBufferEntry::Put { entity: 1, value: pos(1, 1) });
    buffer.record(CommandBufferEntry::Put { entity: 1, value: pos(2, 2) });
    let mut group = ComponentGroup::new();
    buffer.merge(&mut group);
    assert_eq!(group.get(1), Some(&pos(2, 2)));
    assert_eq!(buffer.len(), 0);
}

#[test]
fn buffer_merge_is_idempotent() {
    let entries = [
        CommandBufferEntry::Put { entity: 1, value: pos(1, 1) },
        CommandBufferEntry::Remove { entity: 2 },
        CommandBufferEntry::Put { entity: 3, value: pos(3, 3) },
        CommandBufferEntry::Put { entity: 1, value: pos(9, 9) },
    ];
    let mut group = ComponentGroup::new();
    group.set(2, pos(2, 2));
    group.set(5, pos(5, 5));
    let mut first: CommandBuffer<Position> = CommandBuffer::new();
    for e in entries.iter() {
        first.record(*e);
    }
    first.merge(&mut group);
    let after_once = (
        group.get(1).copied(),
        group.get(2).copied(),
        group.get(3).copied(),
        group.get(5).copied(),
        group.len(),
    );
    let mut second: CommandBuffer<Position> = CommandBuffer::new();
    for e in entries.iter() {
        second.record(*e);
    }
    second.merge(&mut group);
    let after_twice = (
        group.get(1).copied(),
        group.get(2).copied(),
        group.get(3).copied(),
        group.get(5).copied(),
        group.len(),
    );
    assert_eq!(after_once, after_twice);
    assert_eq!(after_once.0, Some(pos(9, 9)));
    assert_eq!(after_once.1, None);
}

#[test]
fn buffer_conflicts_are_observable() {
    let mut buffer: CommandBuffer<Position> = CommandBuffer::new();
    buffer.record(CommandBufferEntry::Put { entity: 1, value: pos(1, 1) });
    buffer.record(CommandBufferEntry::Put { entity: 2, value: pos(2, 2) });
    assert!(!buffer.has_conflicting_writes());
    buffer.record(CommandBufferEntry::Remove { entity: 1 });
    assert!(buffer.has_conflicting_writes());
}

#[test]
fn conflicting_stage_is_rejected() {
    let (scheduler, world, _, _) = flat_world_one_mover();
    let jobs = vec![SystemJob::Movement, SystemJob::Movement];
    match run_stage(&jobs, &scheduler, &world) {
        Err(StageError::WriteConflict) => {},
        _ => panic!("two position writers in one stage must be rejected"),
    }
}

#[test]
fn scene_rejects_conflicting_stage() {
    let world = WorldState::new();
    match GameScene::new(
        world,
        MapPath::new(),
        Ground::new(1),
        vec![SystemJob::Movement, SystemJob::Movement],
        vec![RenderJob::CharacterTransforms],
    ) {
        Err(StageError::WriteConflict) => {},
        _ => panic!("expected WriteConflict"),
    }
}

#[test]
fn no_write_is_visible_before_the_merge() {
    let (scheduler, mut world, _, _) = flat_world_one_mover();
    let jobs = vec![SystemJob::Movement, SystemJob::Spin { delta_millidegrees: 1000 }];
    world.angles.set(1, Angle { millidegrees: 359_500 });
    let mut out = run_stage(&jobs, &scheduler, &world).unwrap();
    // The stage ran, but shared state is untouched until the barrier merge.
    assert_eq!(world.positions.get(1), Some(&pos(0, 0)));
    assert_eq!(world.angles.get(1), Some(&Angle { millidegrees: 359_500 }));
    merge_stage(&mut out, &mut world);
    // The movement job placed the mover where its only leg completes.
    assert_eq!(world.positions.get(1), Some(&pos(10, 0)));
    assert_eq!(world.angles.get(1), Some(&Angle { millidegrees: 500 }));
    // The render-batch stage reads the merged, consistent state.
    let batch = build_render_batch(&world);
    assert_eq!(batch.len(), 1);
    assert_eq!(batch[0].entity, 1);
    assert_eq!(batch[0].angle, Angle { millidegrees: 500 });
}

#[test]
fn failed_job_is_recorded_and_not_merged() {
    let (scheduler, world, _, _) = flat_world_one_mover();
    // The mover has an action but no position component any more.
    let mut broken = WorldState::new();
    broken.statuses.set(1, CharacterStatus { speed: 5 });
    let _ = world;
    let jobs = vec![SystemJob::Movement, SystemJob::Spin { delta_millidegrees: 10 }];
    let mut out = run_stage(&jobs, &scheduler, &broken).unwrap();
    assert_eq!(out.failures.len(), 1);
    assert_eq!(out.failures[0].job_index, 0);
    assert_eq!(out.failures[0].error, JobError::MissingComponent { entity: 1 });
    merge_stage(&mut out, &mut broken);
    assert_eq!(broken.positions.len(), 0);
}

#[test]
fn move_scenario_completes_after_two_seconds() {
    let mut world = WorldState::new();
    world.positions.set(1, pos(0, 0));
    world.statuses.set(1, CharacterStatus { speed: 5 });
    let mut map_path = MapPath::new();
    map_path.add_route(
        pos(0, 0),
        pos(10, 0),
        vec![PathSegment { start: pos(0, 0), length: 10 }],
    );
    let mut scene = GameScene::new(
        world,
        map_path,
        Ground::new(1),
        vec![SystemJob::Movement],
        vec![RenderJob::CharacterTransforms],
    )
    .unwrap();
    let outcome = scene.scheduler.request_move(
        1,
        pos(10, 0),
        &scene.world.positions,
        &scene.world.statuses,
        &scene.map_path,
        &scene.ground,
    );
    assert_eq!(outcome, ScheduleOutcome::Scheduled);
    // Exactly one action state of 2.0 s for the one 10-unit segment at 5 units/s.
    assert_eq!(scene.scheduler.queue_len(1), 1);
    let head = scene.scheduler.head_action(1).unwrap();
    assert_eq!(head.total_ms, 2000);
    assert_eq!(head.remaining_ms, 2000);
    // Half the leg elapses: still scheduled, 1000 ms left, and the merge has
    // already landed the mover where its leg completes.
    assert_eq!(scene.update(SceneEvent::Frame { elapsed_ms: 1000 }), SceneControlFlow::Stay);
    assert_eq!(scene.scheduler.head_action(1).unwrap().remaining_ms, 1000);
    assert_eq!(scene.world.positions.get(1), Some(&pos(10, 0)));
    // The rest elapses: the queue drains and the re-invoked creator sees
    // start == end == (10, 0) and completes, leaving the entity Idle.
    assert_eq!(scene.update(SceneEvent::Frame { elapsed_ms: 1000 }), SceneControlFlow::Stay);
    assert!(scene.scheduler.is_idle(1));
    assert_eq!(scene.scheduler.queue_len(1), 0);
}

#[test]
fn move_scenario_completes_in_a_single_frame() {
    let mut world = WorldState::new();
    world.positions.set(1, pos(0, 0));
    world.statuses.set(1, CharacterStatus { speed: 5 });
    let mut map_path = MapPath::new();
    map_path.add_route(
        pos(0, 0),
        pos(10, 0),
        vec![PathSegment { start: pos(0, 0), length: 10 }],
    );
    let mut scene = GameScene::new(
        world,
        map_path,
        Ground::new(1),
        vec![SystemJob::Movement],
        vec![RenderJob::CharacterTransforms],
    )
    .unwrap();
    let outcome = scene.scheduler.request_move(
        1,
        pos(10, 0),
        &scene.world.positions,
        &scene.world.statuses,
        &scene.map_path,
        &scene.ground,
    );
    assert_eq!(outcome, ScheduleOutcome::Scheduled);
    // One frame covering the whole 2.0 s leg: the entity arrives and is Idle.
    assert_eq!(scene.update(SceneEvent::Frame { elapsed_ms: 2000 }), SceneControlFlow::Stay);
    assert!(scene.scheduler.is_idle(1));
    assert_eq!(scene.world.positions.get(1), Some(&pos(10, 0)));
}

#[test]
fn unreachable_island_leaves_entity_idle() {
    let mut world = WorldState::new();
    world.positions.set(1, pos(0, 0));
    world.statuses.set(1, CharacterStatus { speed: 5 });
    let map_path = MapPath::new();
    let ground = Ground::new(1);
    let mut scheduler = ActionScheduler::new();
    let outcome = scheduler.request_move(
        1,
        pos(50, 50),
        &world.positions,
        &world.statuses,
        &map_path,
        &ground,
    );
    assert_eq!(outcome, ScheduleOutcome::Cancelled);
    assert!(scheduler.is_idle(1));
    assert_eq!(scheduler.queue_len(1), 0);
}

#[test]
fn request_to_current_position_completes() {
    let mut world = WorldState::new();
    world.positions.set(1, pos(4, 4));
    world.statuses.set(1, CharacterStatus { speed: 5 });
    let mut scheduler = ActionScheduler::new();
    let outcome = scheduler.request_move(
        1,
        pos(4, 4),
        &world.positions,
        &world.statuses,
        &MapPath::new(),
        &Ground::new(1),
    );
    assert_eq!(outcome, ScheduleOutcome::Completed);
    assert!(scheduler.is_idle(1));
}

#[test]
fn request_supersedes_previous_goal() {
    let (mut scheduler, world, mut map_path, ground) = flat_world_one_mover();
    map_path.add_route(
        pos(0, 0),
        pos(0, 8),
        vec![
        PathSegment { start: pos(0, 0), length: 4 },
        PathSegment { start: pos(0, 4), length: 4 },
    ],
    );
    let outcome = scheduler.request_move(
        1,
        pos(0, 8),
        &world.positions,
        &world.statuses,
        &map_path,
        &ground,
    );
    assert_eq!(outcome, ScheduleOutcome::Scheduled);
    // The queue built against the old goal is discarded whole.
    assert_eq!(scheduler.queue_len(1), 2);
    assert_eq!(scheduler.head_action(1).unwrap().remaining_ms, 800);
}

#[test]
fn request_without_capability_is_surfaced() {
    let mut world = WorldState::new();
    world.positions.set(1, pos(0, 0));
    let mut scheduler = ActionScheduler::new();
    let outcome = scheduler.request_move(
        1,
        pos(10, 0),
        &world.positions,
        &world.statuses,
        &MapPath::new(),
        &Ground::new(1),
    );
    assert_eq!(outcome, ScheduleOutcome::MissingCapability);
    assert!(scheduler.is_idle(1));
}

#[test]
fn game_scene_frame_moves_and_renders() {
    let mut world = WorldState::new();
    world.positions.set(1, pos(3, 3));
    world.angles.set(1, Angle { millidegrees: 0 });
    world.statuses.set(1, CharacterStatus { speed: 5 });
    let mut map_path = MapPath::new();
    map_path.add_route(
        pos(3, 3),
        pos(13, 3),
        vec![PathSegment { start: pos(3, 3), length: 10 }],
    );
    let ground = Ground::new(1);
    let mut scene = GameScene::new(
        world,
        map_path,
        ground,
        vec![SystemJob::Movement, SystemJob::Spin { delta_millidegrees: 500 }],
        vec![RenderJob::CharacterTransforms, RenderJob::CharacterTransforms],
    )
    .unwrap();
    let outcome = scene.scheduler.request_move(
        1,
        pos(13, 3),
        &scene.world.positions,
        &scene.world.statuses,
        &scene.map_path,
        &scene.ground,
    );
    assert_eq!(outcome, ScheduleOutcome::Scheduled);
    let flow = scene.update(SceneEvent::Frame { elapsed_ms: 500 });
    assert_eq!(flow, SceneControlFlow::Stay);
    assert_eq!(scene.last_failures.len(), 0);
    // The movement job placed the mover where its only leg completes; the
    // spin job advanced its orientation; both became visible only at the merge.
    assert_eq!(scene.world.positions.get(1), Some(&pos(13, 3)));
    assert_eq!(scene.world.angles.get(1), Some(&Angle { millidegrees: 500 }));
    assert_eq!(scene.scheduler.head_action(1).unwrap().remaining_ms, 1500);
    let batches = scene.render();
    assert_eq!(batches.len(), 2);
    assert_eq!(batches[0].len(), 1);
    assert_eq!(batches[0][0].position, pos(13, 3));
    assert_eq!(batches[0][0].angle, Angle { millidegrees: 500 });
    assert_eq!(scene.update(SceneEvent::Closed), SceneControlFlow::Exit);
}

#[test]
fn file_scene_is_inert() {
    let mut scene = FileScene::new();
    assert_eq!(scene.update(SceneEvent::Closed), SceneControlFlow::Stay);
    assert_eq!(scene.render(), SceneControlFlow::Stay);
}
