//! Scenes: the per-frame entry points the host engine drives.
//!
//! The engine calls `update` once per frame with an event, then `render`.
//! `GameScene` owns the simulation core. Each frame the simulation stage's
//! jobs read the pre-merge state; their command buffers merge at the barrier;
//! only then does the scheduler advance action time, so a drained queue
//! re-invokes the Action Creator with the entity's merged position — an
//! entity whose last leg expires is seen at its goal. The render-batch stage
//! reads nothing before the merge. `FileScene` is a trivial scene whose asset
//! loading lives outside the core.

use vstd::prelude::*;

use crate::action::lemma_status_lookup_wf;
use crate::action::statuses_all_wf;
use crate::assoc::lookup;
use crate::command::apply_entries;
use crate::components::Angle;
use crate::components::EntityId;
use crate::components::Position;
use crate::job::jobs_conflict;
use crate::job::merge_stage;
use crate::job::render_items;
use crate::job::run_render_stage;
use crate::job::run_stage;
use crate::job::run_stage_spec;
use crate::job::JobFailure;
use crate::job::RenderItem;
use crate::job::RenderJob;
use crate::job::StageError;
use crate::job::SystemJob;
use crate::job::WorldState;
use crate::pathfind::MapPath;
use crate::scheduler::tick_all;
use crate::scheduler::ActionScheduler;
use crate::scheduler::PlanView;
use crate::terrain::Ground;

verus! {

/// The engine-defined control-flow signal a scene hands back.
#[derive(Clone, Copy, PartialEq, Eq, Structural, Debug)]
pub enum SceneControlFlow {
    /// Keep driving this scene.
    Stay,
    /// Tear the scene down.
    Exit,
}

/// The per-frame event the engine hands to `update`.
#[derive(Clone, Copy, PartialEq, Eq, Structural, Debug)]
pub enum SceneEvent {
    /// A frame elapsed; advance the simulation.
    Frame { elapsed_ms: u64 },
    /// The window is closing.
    Closed,
}

/// A scene that only waits for an asset load; the load itself is I/O and
/// lives with the host, outside the core.
pub struct FileScene {}

impl FileScene {
    pub fn new() -> (r: FileScene) {
        FileScene {}
    }

    pub fn update(&mut self, event: SceneEvent) -> (r: SceneControlFlow)
        ensures
            r == SceneControlFlow::Stay,
    {
        let _ = event;
        SceneControlFlow::Stay
    }

    pub fn render(&mut self) -> (r: SceneControlFlow)
        ensures
            r == SceneControlFlow::Stay,
    {
        SceneControlFlow::Stay
    }
}

/// What one frame of the simulation computes from the pre-frame state.
pub ghost struct FrameView {
    pub sched: Seq<(EntityId, PlanView)>,
    pub positions: Seq<(EntityId, Position)>,
    pub angles: Seq<(EntityId, Angle)>,
    pub failures: Seq<JobFailure>,
}

/// The game scene: the simulation core plus its stage configuration.
pub struct GameScene {
    pub scheduler: ActionScheduler,
    pub world: WorldState,
    pub map_path: MapPath,
    pub ground: Ground,
    pub sim_jobs: Vec<SystemJob>,
    pub render_jobs: Vec<RenderJob>,
    /// The failure aggregate of the latest simulation stage.
    pub last_failures: Vec<JobFailure>,
}

impl GameScene {
    pub open spec fn wf(&self) -> bool {
        &&& self.scheduler.wf()
        &&& self.world.wf()
        &&& self.map_path.wf()
        &&& self.ground.wf()
        &&& statuses_all_wf(self.world.statuses@)
        &&& !jobs_conflict(self.sim_jobs@)
    }

    /// One frame, serialized: the simulation stage runs against the pre-merge
    /// state, its buffers merge at the barrier, and then the scheduler
    /// advances action time against the merged components. The render-batch
    /// stage reads only the merged result.
    pub open spec fn frame_spec(self, elapsed_ms: u64) -> FrameView {
        let sv = run_stage_spec(
            self.sim_jobs@,
            self.scheduler@,
            self.world.positions@,
            self.world.angles@,
        );
        let positions = apply_entries(self.world.positions@, sv.position_entries);
        let angles = apply_entries(self.world.angles@, sv.angle_entries);
        let sched = tick_all(
            self.scheduler@,
            elapsed_ms,
            positions,
            self.world.statuses@,
            &self.map_path,
            &self.ground,
        );
        FrameView { sched, positions, angles, failures: sv.failures }
    }

    /// Assemble a scene; a simulation stage whose jobs declare overlapping
    /// writes is rejected outright.
    pub fn new(
        world: WorldState,
        map_path: MapPath,
        ground: Ground,
        sim_jobs: Vec<SystemJob>,
        render_jobs: Vec<RenderJob>,
    ) -> (r: Result<GameScene, StageError>)
        requires
            world.wf(),
            map_path.wf(),
            ground.wf(),
            statuses_all_wf(world.statuses@),
        ensures
            match r {
                Ok(scene) => !jobs_conflict(sim_jobs@) && scene.wf() && scene.scheduler@
                    =~= Seq::<(EntityId, PlanView)>::empty() && scene.world == world
                    && scene.map_path == map_path && scene.ground == ground && scene.sim_jobs
                    == sim_jobs && scene.render_jobs == render_jobs && scene.last_failures@
                    =~= Seq::<JobFailure>::empty(),
                Err(e) => e == StageError::WriteConflict && jobs_conflict(sim_jobs@),
            },
    {
        if crate::job::stage_has_conflict(&sim_jobs) {
            return Err(StageError::WriteConflict);
        }
        Ok(
            GameScene {
                scheduler: ActionScheduler::new(),
                world,
                map_path,
                ground,
                sim_jobs,
                render_jobs,
                last_failures: Vec::new(),
            },
        )
    }

    /// The per-frame entry point the engine drives.
    ///
    /// On a frame event: run the simulation stage against the pre-merge
    /// state, merge its command buffers at the barrier, then advance the
    /// scheduler by the elapsed time against the merged components. No
    /// component write becomes visible before the merge, and the route table
    /// and terrain are read-only for the whole tick.
    pub fn update(&mut self, event: SceneEvent) -> (r: SceneControlFlow)
        requires
            old(self).wf(),
        ensures
            final(self).wf(),
            match event {
                SceneEvent::Frame { elapsed_ms } => {
                    let fv = old(self).frame_spec(elapsed_ms);
                    &&& r == SceneControlFlow::Stay
                    &&& final(self).scheduler@ =~= fv.sched
                    &&& final(self).world.positions@ =~= fv.positions
                    &&& final(self).world.angles@ =~= fv.angles
                    &&& final(self).world.statuses@ == old(self).world.statuses@
                    &&& final(self).last_failures@ == fv.failures
                    &&& final(self).map_path == old(self).map_path
                    &&& final(self).ground == old(self).ground
                    &&& final(self).sim_jobs == old(self).sim_jobs
                    &&& final(self).render_jobs == old(self).render_jobs
                },
                SceneEvent::Closed => r == SceneControlFlow::Exit && *final(self) == *old(self),
            },
    {
        match event {
            SceneEvent::Frame { elapsed_ms } => {
                match run_stage(&self.sim_jobs, &self.scheduler, &self.world) {
                    Ok(mut out) => {
                        merge_stage(&mut out, &mut self.world);
                        self.last_failures = out.failures;
                    },
                    Err(_) => {
                        proof {
                            assert(false);
                        }
                    },
                }
                proof {
                    assert forall|i: int|
                        0 <= i < self.scheduler@.len() implies match lookup(
                        self.world.statuses@,
                        (#[trigger] self.scheduler@[i]).0,
                    ) {
                        Some(st) => st.wf(),
                        None => true,
                    } by {
                        if lookup(self.world.statuses@, self.scheduler@[i].0) is Some {
                            lemma_status_lookup_wf(self.world.statuses@, self.scheduler@[i].0);
                        }
                    }
                }
                self.scheduler.tick(
                    elapsed_ms,
                    &self.world.positions,
                    &self.world.statuses,
                    &self.map_path,
                    &self.ground,
                );
                SceneControlFlow::Stay
            },
            SceneEvent::Closed => SceneControlFlow::Exit,
        }
    }

    /// The per-frame render entry point, invoked after `update`: builds the
    /// backend-agnostic draw batches from the merged component state.
    pub fn render(&self) -> (r: Vec<Vec<RenderItem>>)
        requires
            self.wf(),
        ensures
            r@.len() == self.render_jobs@.len(),
            forall|i: int|
                0 <= i < r@.len() ==> (#[trigger] r@[i])@ == render_items(
                    self.world.positions@,
                    self.world.angles@,
                ),
    {
        run_render_stage(&self.render_jobs, &self.world)
    }
}

} // verus!
