//! Job Graph Executor: a stage of write-independent system jobs, a barrier,
//! and the merge of their command buffers into shared component storage.
//!
//! Jobs read components and action states and record mutations; they never
//! touch shared storage. A stage is rejected when two of its jobs declare a
//! write to the same component kind. A job failure is recorded per job and
//! never cancels its siblings; a failed job's writes are not merged.

use vstd::prelude::*;

use crate::command::apply_entries;
use crate::command::CommandBuffer;
use crate::command::CommandBufferEntry;
use crate::components::Angle;
use crate::components::CharacterStatus;
use crate::components::ComponentGroup;
use crate::components::EntityId;
use crate::components::Position;
use crate::components::FULL_TURN_MILLIDEG;
use crate::scheduler::plan_destination;
use crate::scheduler::ActionScheduler;
use crate::scheduler::PlanView;

verus! {

/// The component kinds a job can declare writes to.
#[derive(Clone, Copy, PartialEq, Eq, Structural, Debug)]
pub enum ComponentKind {
    Positions,
    Angles,
}

/// The closed set of system jobs of the simulation stage.
#[derive(Clone, Copy, PartialEq, Eq, Structural, Debug)]
pub enum SystemJob {
    /// Reads action states and positions; writes positions: each entity with
    /// an active move action is placed where its head leg completes — at the
    /// next queued segment's start, or at its plan's goal on the last leg.
    Movement,
    /// Reads angles; writes angles: every orientation advances by the given
    /// spin, wrapping at a full turn.
    Spin { delta_millidegrees: u32 },
}

pub open spec fn writes_positions(j: SystemJob) -> bool {
    j is Movement
}

pub open spec fn writes_angles(j: SystemJob) -> bool {
    j is Spin
}

/// Two jobs of one stage declare a write to the same component kind.
pub open spec fn jobs_conflict(jobs: Seq<SystemJob>) -> bool {
    exists|a: int, b: int|
        0 <= a < b < jobs.len() && ((writes_positions(#[trigger] jobs[a]) && writes_positions(
            #[trigger] jobs[b],
        )) || (writes_angles(jobs[a]) && writes_angles(jobs[b])))
}

/// The shared entity-component storage, exclusively owned by the simulation
/// core; jobs borrow it read-only and merge is its only mutator.
pub struct WorldState {
    pub positions: ComponentGroup<Position>,
    pub angles: ComponentGroup<Angle>,
    pub statuses: ComponentGroup<CharacterStatus>,
}

impl WorldState {
    pub open spec fn wf(&self) -> bool {
        self.positions.wf() && self.angles.wf() && self.statuses.wf()
    }

    pub fn new() -> (r: WorldState)
        ensures
            r.wf(),
            r.positions@ =~= Seq::<(EntityId, Position)>::empty(),
            r.angles@ =~= Seq::<(EntityId, Angle)>::empty(),
            r.statuses@ =~= Seq::<(EntityId, CharacterStatus)>::empty(),
    {
        WorldState {
            positions: ComponentGroup::new(),
            angles: ComponentGroup::new(),
            statuses: ComponentGroup::new(),
        }
    }
}

/// Why one job failed; its siblings keep running.
#[derive(Clone, Copy, PartialEq, Eq, Structural, Debug)]
pub enum JobError {
    /// The job needed a component this entity does not have.
    MissingComponent { entity: EntityId },
}

/// One recorded job failure of a stage.
#[derive(Clone, Copy, PartialEq, Eq, Structural, Debug)]
pub struct JobFailure {
    pub job_index: usize,
    pub error: JobError,
}

/// The mathematical shape of one job's recorded writes.
pub ghost struct JobOutputView {
    pub position_entries: Seq<CommandBufferEntry<Position>>,
    pub angle_entries: Seq<CommandBufferEntry<Angle>>,
}

/// What the movement job records: one position write per scheduled entity,
/// in scheduling order, placing it where its head leg completes, so that by
/// the time the last leg expires the entity stands at its goal; the job fails
/// on the first entity without a position.
pub open spec fn movement_entries(
    sched: Seq<(EntityId, PlanView)>,
    positions: Seq<(EntityId, Position)>,
) -> Result<Seq<CommandBufferEntry<Position>>, JobError>
    decreases sched.len(),
{
    if sched.len() == 0 {
        Ok(Seq::empty())
    } else {
        match movement_entries(sched.drop_last(), positions) {
            Err(e) => Err(e),
            Ok(pre) => {
                let entity = sched.last().0;
                if crate::assoc::lookup(positions, entity) is None {
                    Err(JobError::MissingComponent { entity })
                } else {
                    Ok(
                        pre.push(
                            CommandBufferEntry::Put {
                                entity,
                                value: plan_destination(sched.last().1),
                            },
                        ),
                    )
                }
            },
        }
    }
}

/// An orientation advanced by `delta`, wrapping at a full turn.
pub open spec fn spin_angle(a: Angle, delta: u32) -> Angle {
    Angle {
        millidegrees: (((a.millidegrees as int) + (delta as int)) % (
        FULL_TURN_MILLIDEG as int)) as u32,
    }
}

/// What the spin job records: one angle write per entry, in storage order.
pub open spec fn spin_entries(angles: Seq<(EntityId, Angle)>, delta: u32) -> Seq<
    CommandBufferEntry<Angle>,
> {
    angles.map_values(
        |e: (EntityId, Angle)| CommandBufferEntry::Put { entity: e.0, value: spin_angle(e.1, delta) },
    )
}

/// What one job records, as a function of the pre-merge state alone.
pub open spec fn job_output(
    job: SystemJob,
    sched: Seq<(EntityId, PlanView)>,
    positions: Seq<(EntityId, Position)>,
    angles: Seq<(EntityId, Angle)>,
) -> Result<JobOutputView, JobError> {
    match job {
        SystemJob::Movement => match movement_entries(sched, positions) {
            Ok(es) => Ok(JobOutputView { position_entries: es, angle_entries: Seq::empty() }),
            Err(e) => Err(e),
        },
        SystemJob::Spin { delta_millidegrees } => Ok(
            JobOutputView {
                position_entries: Seq::empty(),
                angle_entries: spin_entries(angles, delta_millidegrees),
            },
        ),
    }
}

/// The mathematical shape of a finished stage: the two command logs in job
/// order and the recorded failures.
pub ghost struct StageView {
    pub position_entries: Seq<CommandBufferEntry<Position>>,
    pub angle_entries: Seq<CommandBufferEntry<Angle>>,
    pub failures: Seq<JobFailure>,
}

/// Running a whole stage: successful jobs append their writes in job order,
/// failed jobs are recorded and contribute no writes.
pub open spec fn run_stage_spec(
    jobs: Seq<SystemJob>,
    sched: Seq<(EntityId, PlanView)>,
    positions: Seq<(EntityId, Position)>,
    angles: Seq<(EntityId, Angle)>,
) -> StageView
    decreases jobs.len(),
{
    if jobs.len() == 0 {
        StageView {
            position_entries: Seq::empty(),
            angle_entries: Seq::empty(),
            failures: Seq::empty(),
        }
    } else {
        let pre = run_stage_spec(jobs.drop_last(), sched, positions, angles);
        match job_output(jobs.last(), sched, positions, angles) {
            Ok(o) => StageView {
                position_entries: pre.position_entries + o.position_entries,
                angle_entries: pre.angle_entries + o.angle_entries,
                failures: pre.failures,
            },
            Err(e) => StageView {
                position_entries: pre.position_entries,
                angle_entries: pre.angle_entries,
                failures: pre.failures.push(
                    JobFailure { job_index: (jobs.len() - 1) as usize, error: e },
                ),
            },
        }
    }
}

/// A movement failure in a prefix decides the whole job.
proof fn lemma_movement_err_extends(
    sched: Seq<(EntityId, PlanView)>,
    positions: Seq<(EntityId, Position)>,
    m: int,
)
    requires
        0 <= m <= sched.len(),
        movement_entries(sched.take(m), positions) is Err,
    ensures
        movement_entries(sched, positions) == movement_entries(sched.take(m), positions),
    decreases sched.len(),
{
    if m < sched.len() {
        assert(sched.drop_last().take(m) =~= sched.take(m));
        lemma_movement_err_extends(sched.drop_last(), positions, m);
    } else {
        assert(sched.take(m) =~= sched);
    }
}

/// A stage configuration error: the stage never runs.
#[derive(Clone, Copy, PartialEq, Eq, Structural, Debug)]
pub enum StageError {
    /// Two jobs declared a write to the same component kind.
    WriteConflict,
}

/// The command buffers and failure aggregate of a finished stage, waiting at
/// the barrier for its merge.
pub struct StageOutput {
    pub position_commands: CommandBuffer<Position>,
    pub angle_commands: CommandBuffer<Angle>,
    pub failures: Vec<JobFailure>,
}

fn job_writes_positions(j: SystemJob) -> (r: bool)
    ensures
        r == writes_positions(j),
{
    match j {
        SystemJob::Movement => true,
        SystemJob::Spin { .. } => false,
    }
}

fn job_writes_angles(j: SystemJob) -> (r: bool)
    ensures
        r == writes_angles(j),
{
    match j {
        SystemJob::Movement => false,
        SystemJob::Spin { .. } => true,
    }
}

/// Whether two jobs of this stage declare overlapping writes.
pub fn stage_has_conflict(jobs: &Vec<SystemJob>) -> (r: bool)
    ensures
        r == jobs_conflict(jobs@),
{
    let n = jobs.len();
    for a in 0..n
        invariant
            n == jobs@.len(),
            forall|x: int, y: int|
                0 <= x < y < n && x < a ==> !((writes_positions(#[trigger] jobs@[x])
                    && writes_positions(#[trigger] jobs@[y])) || (writes_angles(jobs@[x])
                    && writes_angles(jobs@[y]))),
    {
        let wp = job_writes_positions(jobs[a]);
        let wa = job_writes_angles(jobs[a]);
        for b in (a + 1)..n
            invariant
                n == jobs@.len(),
                a < n,
                wp == writes_positions(jobs@[a as int]),
                wa == writes_angles(jobs@[a as int]),
                forall|y: int|
                    a < y < b ==> !((wp && writes_positions(#[trigger] jobs@[y])) || (wa
                        && writes_angles(jobs@[y]))),
        {
            if (wp && job_writes_positions(jobs[b])) || (wa && job_writes_angles(jobs[b])) {
                return true;
            }
        }
        proof {
            assert(forall|y: int|
                a < y < n ==> !((writes_positions(jobs@[a as int]) && writes_positions(
                    #[trigger] jobs@[y],
                )) || (writes_angles(jobs@[a as int]) && writes_angles(jobs@[y]))));
        }
    }
    false
}

/// Run the movement job against the pre-merge state.
fn movement_job(scheduler: &ActionScheduler, positions: &ComponentGroup<Position>) -> (r: Result<
    CommandBuffer<Position>,
    JobError,
>)
    requires
        scheduler.wf(),
        positions.wf(),
    ensures
        match r {
            Ok(buf) => movement_entries(scheduler@, positions@) == Ok::<_, JobError>(buf@),
            Err(e) => movement_entries(scheduler@, positions@) == Err::<
                Seq<CommandBufferEntry<Position>>,
                _,
            >(e),
        },
{
    let n = scheduler.len();
    let mut buf = CommandBuffer::<Position>::new();
    for i in 0..n
        invariant
            n == scheduler@.len(),
            scheduler.wf(),
            positions.wf(),
            movement_entries(scheduler@.take(i as int), positions@) == Ok::<_, JobError>(buf@),
    {
        let ghost pre = buf@;
        let entity = scheduler.entity_at(i);
        if !positions.contains(entity) {
            proof {
                assert(scheduler@.take(i + 1).drop_last() =~= scheduler@.take(i as int));
                assert(movement_entries(scheduler@.take(i + 1), positions@) == Err::<
                    Seq<CommandBufferEntry<Position>>,
                    _,
                >(JobError::MissingComponent { entity }));
                lemma_movement_err_extends(scheduler@, positions@, i + 1);
            }
            return Err(JobError::MissingComponent { entity });
        }
        let destination = scheduler.destination_at(i);
        buf.record(CommandBufferEntry::Put { entity, value: destination });
        proof {
            assert(scheduler@.take(i + 1).drop_last() =~= scheduler@.take(i as int));
            assert(scheduler@.take(i + 1).last() == scheduler@[i as int]);
            assert(movement_entries(scheduler@.take(i + 1), positions@) == Ok::<_, JobError>(
                buf@,
            ));
        }
    }
    proof {
        assert(scheduler@.take(n as int) =~= scheduler@);
    }
    Ok(buf)
}

/// Run the spin job against the pre-merge state.
fn spin_job(angles: &ComponentGroup<Angle>, delta_millidegrees: u32) -> (buf: CommandBuffer<
    Angle,
>)
    ensures
        buf@ == spin_entries(angles@, delta_millidegrees),
{
    let n = angles.len();
    let mut buf = CommandBuffer::<Angle>::new();
    for i in 0..n
        invariant
            n == angles@.len(),
            buf@.len() == i,
            forall|j: int|
                0 <= j < i ==> buf@[j] == spin_entries(angles@, delta_millidegrees)[j],
    {
        let entry = angles.entry_at(i);
        let entity = entry.0;
        let wrapped = ((entry.1.millidegrees as u64 + delta_millidegrees as u64) % (
        FULL_TURN_MILLIDEG as u64)) as u32;
        buf.record(CommandBufferEntry::Put { entity, value: Angle { millidegrees: wrapped } });
        proof {
            assert(buf@[i as int] == spin_entries(angles@, delta_millidegrees)[i as int]);
        }
    }
    proof {
        assert(buf@ =~= spin_entries(angles@, delta_millidegrees));
    }
    buf
}

/// Dispatch every job of a stage against the same pre-merge state and wait at
/// the barrier: the combined command logs are handed back for the merge, and
/// per-job failures are aggregated without cancelling sibling jobs.
///
/// A stage whose jobs declare overlapping writes is rejected before any job
/// runs.
pub fn run_stage(jobs: &Vec<SystemJob>, scheduler: &ActionScheduler, world: &WorldState) -> (r:
    Result<StageOutput, StageError>)
    requires
        scheduler.wf(),
        world.wf(),
    ensures
        match r {
            Err(e) => e == StageError::WriteConflict && jobs_conflict(jobs@),
            Ok(out) => {
                let sv = run_stage_spec(jobs@, scheduler@, world.positions@, world.angles@);
                &&& !jobs_conflict(jobs@)
                &&& out.position_commands@ == sv.position_entries
                &&& out.angle_commands@ == sv.angle_entries
                &&& out.failures@ == sv.failures
            },
        },
{
    if stage_has_conflict(jobs) {
        return Err(StageError::WriteConflict);
    }
    let n = jobs.len();
    let mut position_commands = CommandBuffer::<Position>::new();
    let mut angle_commands = CommandBuffer::<Angle>::new();
    let mut failures: Vec<JobFailure> = Vec::new();
    for i in 0..n
        invariant
            n == jobs@.len(),
            scheduler.wf(),
            world.wf(),
            ({
                let sv = run_stage_spec(
                    jobs@.take(i as int),
                    scheduler@,
                    world.positions@,
                    world.angles@,
                );
                position_commands@ == sv.position_entries && angle_commands@ == sv.angle_entries
                    && failures@ == sv.failures
            }),
    {
        match jobs[i] {
            SystemJob::Movement => {
                match movement_job(scheduler, &world.positions) {
                    Ok(buf) => {
                        position_commands.record_all(buf);
                    },
                    Err(e) => {
                        failures.push(JobFailure { job_index: i, error: e });
                    },
                }
            },
            SystemJob::Spin { delta_millidegrees } => {
                let buf = spin_job(&world.angles, delta_millidegrees);
                angle_commands.record_all(buf);
            },
        }
        proof {
            assert(jobs@.take(i + 1).drop_last() =~= jobs@.take(i as int));
            assert(jobs@.take(i + 1).last() == jobs@[i as int]);
            let sv = run_stage_spec(jobs@.take(i + 1), scheduler@, world.positions@, world.angles@);
            assert(position_commands@ =~= sv.position_entries);
            assert(angle_commands@ =~= sv.angle_entries);
            assert(failures@ =~= sv.failures);
        }
    }
    proof {
        assert(jobs@.take(n as int) =~= jobs@);
    }
    Ok(StageOutput { position_commands, angle_commands, failures })
}

/// The barrier's merge step: apply a finished stage's command logs to the
/// shared storage, atomically and in recording order, and clear them. Runs
/// strictly after every job of the stage has finished and strictly before
/// any later stage's job reads.
pub fn merge_stage(out: &mut StageOutput, world: &mut WorldState)
    requires
        old(world).wf(),
    ensures
        final(world).wf(),
        final(world).positions@ =~= apply_entries(
            old(world).positions@,
            old(out).position_commands@,
        ),
        final(world).angles@ =~= apply_entries(old(world).angles@, old(out).angle_commands@),
        final(world).statuses@ == old(world).statuses@,
        final(out).position_commands@.len() == 0,
        final(out).angle_commands@.len() == 0,
        final(out).failures@ == old(out).failures@,
{
    out.position_commands.merge(&mut world.positions);
    out.angle_commands.merge(&mut world.angles);
}

/// A job that declares no write to a kind records no entry of that kind.
pub proof fn lemma_job_writes_respected(
    job: SystemJob,
    sched: Seq<(EntityId, PlanView)>,
    positions: Seq<(EntityId, Position)>,
    angles: Seq<(EntityId, Angle)>,
)
    ensures
        job_output(job, sched, positions, angles) matches Ok(o) ==> {
            &&& !writes_positions(job) ==> o.position_entries.len() == 0
            &&& !writes_angles(job) ==> o.angle_entries.len() == 0
        },
{
}

/// The closed set of jobs of the render-batch stage; these only read the
/// merged components and never write, so their outputs cannot affect entity
/// state and no write-conflict check is needed.
#[derive(Clone, Copy, PartialEq, Eq, Structural, Debug)]
pub enum RenderJob {
    /// One backend-agnostic transform per positioned entity.
    CharacterTransforms,
}

/// One entry of a draw batch: an entity's transform for the render backend.
#[derive(Clone, Copy, PartialEq, Eq, Structural, Debug)]
pub struct RenderItem {
    pub entity: EntityId,
    pub position: Position,
    pub angle: Angle,
}

/// An entity's orientation, or zero if it has none.
pub open spec fn angle_or_default(angles: Seq<(EntityId, Angle)>, entity: EntityId) -> Angle {
    match crate::assoc::lookup(angles, entity) {
        Some(a) => a,
        None => Angle { millidegrees: 0 },
    }
}

/// The draw batch: one item per positioned entity, in storage order.
pub open spec fn render_items(
    positions: Seq<(EntityId, Position)>,
    angles: Seq<(EntityId, Angle)>,
) -> Seq<RenderItem> {
    positions.map_values(
        |e: (EntityId, Position)| RenderItem {
            entity: e.0,
            position: e.1,
            angle: angle_or_default(angles, e.0),
        },
    )
}

/// Build one draw batch from the merged, now-consistent component state.
pub fn build_render_batch(world: &WorldState) -> (r: Vec<RenderItem>)
    requires
        world.wf(),
    ensures
        r@ == render_items(world.positions@, world.angles@),
{
    let n = world.positions.len();
    let mut items: Vec<RenderItem> = Vec::new();
    for i in 0..n
        invariant
            n == world.positions@.len(),
            world.wf(),
            items@.len() == i,
            forall|j: int|
                0 <= j < i ==> items@[j] == render_items(world.positions@, world.angles@)[j],
    {
        let entry = world.positions.entry_at(i);
        let entity = entry.0;
        let position = entry.1;
        let angle = match world.angles.get(entity) {
            Some(a) => *a,
            None => Angle { millidegrees: 0 },
        };
        items.push(RenderItem { entity, position, angle });
        proof {
            assert(items@[i as int] == render_items(world.positions@, world.angles@)[i as int]);
        }
    }
    proof {
        assert(items@ =~= render_items(world.positions@, world.angles@));
    }
    items
}

/// Run the render-batch stage: every job reads the same merged state.
pub fn run_render_stage(jobs: &Vec<RenderJob>, world: &WorldState) -> (r: Vec<Vec<RenderItem>>)
    requires
        world.wf(),
    ensures
        r@.len() == jobs@.len(),
        forall|i: int|
            0 <= i < r@.len() ==> (#[trigger] r@[i])@ == render_items(
                world.positions@,
                world.angles@,
            ),
{
    let n = jobs.len();
    let mut batches: Vec<Vec<RenderItem>> = Vec::new();
    for i in 0..n
        invariant
            n == jobs@.len(),
            world.wf(),
            batches@.len() == i,
            forall|j: int|
                0 <= j < i ==> (#[trigger] batches@[j])@ == render_items(
                    world.positions@,
                    world.angles@,
                ),
    {
        match jobs[i] {
            RenderJob::CharacterTransforms => {
                let batch = build_render_batch(world);
                batches.push(batch);
            },
        }
    }
    batches
}

/// The position entries one job contributes: none when it failed.
pub open spec fn position_entries_of(r: Result<JobOutputView, JobError>) -> Seq<
    CommandBufferEntry<Position>,
> {
    match r {
        Ok(o) => o.position_entries,
        Err(_) => Seq::empty(),
    }
}

/// The angle entries one job contributes: none when it failed.
pub open spec fn angle_entries_of(r: Result<JobOutputView, JobError>) -> Seq<
    CommandBufferEntry<Angle>,
> {
    match r {
        Ok(o) => o.angle_entries,
        Err(_) => Seq::empty(),
    }
}

/// A two-job stage's command logs are the two jobs' contributions in order.
proof fn lemma_stage_pair_unfold(
    x: SystemJob,
    y: SystemJob,
    sched: Seq<(EntityId, PlanView)>,
    positions: Seq<(EntityId, Position)>,
    angles: Seq<(EntityId, Angle)>,
)
    ensures
        run_stage_spec(seq![x, y], sched, positions, angles).position_entries
            =~= position_entries_of(job_output(x, sched, positions, angles))
            + position_entries_of(job_output(y, sched, positions, angles)),
        run_stage_spec(seq![x, y], sched, positions, angles).angle_entries =~= angle_entries_of(
            job_output(x, sched, positions, angles),
        ) + angle_entries_of(job_output(y, sched, positions, angles)),
{
    let none = Seq::<SystemJob>::empty();
    let only_x = seq![x];
    let xy = seq![x, y];
    assert(only_x.drop_last() =~= none);
    assert(only_x.last() == x);
    let sv0 = run_stage_spec(none, sched, positions, angles);
    assert(sv0.position_entries =~= Seq::empty());
    assert(sv0.angle_entries =~= Seq::empty());
    let svx = run_stage_spec(only_x, sched, positions, angles);
    assert(svx.position_entries =~= position_entries_of(job_output(x, sched, positions, angles)));
    assert(svx.angle_entries =~= angle_entries_of(job_output(x, sched, positions, angles)));
    assert(xy.drop_last() =~= only_x);
    assert(xy.last() == y);
}

/// Barrier law: each job of a stage reads only the shared pre-merge state,
/// never a sibling's writes, so the command logs of a conflict-free two-job
/// stage do not depend on the order in which its jobs ran.
pub proof fn lemma_stage_order_irrelevant(
    a: SystemJob,
    b: SystemJob,
    sched: Seq<(EntityId, PlanView)>,
    positions: Seq<(EntityId, Position)>,
    angles: Seq<(EntityId, Angle)>,
)
    requires
        !jobs_conflict(seq![a, b]),
    ensures
        run_stage_spec(seq![a, b], sched, positions, angles).position_entries == run_stage_spec(
            seq![b, a],
            sched,
            positions,
            angles,
        ).position_entries,
        run_stage_spec(seq![a, b], sched, positions, angles).angle_entries == run_stage_spec(
            seq![b, a],
            sched,
            positions,
            angles,
        ).angle_entries,
{
    let ab = seq![a, b];
    assert(!(writes_positions(a) && writes_positions(b)) && !(writes_angles(a) && writes_angles(
        b,
    ))) by {
        assert(ab[0] == a && ab[1] == b);
    }
    lemma_job_writes_respected(a, sched, positions, angles);
    lemma_job_writes_respected(b, sched, positions, angles);
    lemma_stage_pair_unfold(a, b, sched, positions, angles);
    lemma_stage_pair_unfold(b, a, sched, positions, angles);
    let pa = position_entries_of(job_output(a, sched, positions, angles));
    let pb = position_entries_of(job_output(b, sched, positions, angles));
    let qa = angle_entries_of(job_output(a, sched, positions, angles));
    let qb = angle_entries_of(job_output(b, sched, positions, angles));
    assert(pa.len() == 0 || pb.len() == 0);
    assert(qa.len() == 0 || qb.len() == 0);
    assert(pa + pb =~= pb + pa);
    assert(qa + qb =~= qb + qa);
}

} // verus!
