//! The simulated workload: experiment settings, random tasks and the pauses
//! between their arrivals, drawn from a seeded generator.
use vstd::prelude::*;
use crate::generator::{drawn_value, requests, Draw, DrawWidth, WorkloadRng};
use crate::scheduler::{SchedulingPolicy, Task, TaskKind};

verus! {

/// The seed of the workload generator, so that runs can be repeated.
pub const WORKLOAD_SEED: u64 = 42;

/// The shortest and longest CPU task, in milliseconds.
pub const CPU_MIN_MS: u64 = 25;
pub const CPU_MAX_MS: u64 = 80;

/// The shortest and longest IO task, in milliseconds.
pub const IO_MIN_MS: u64 = 10;
pub const IO_MAX_MS: u64 = 45;

/// In a bursty workload, the generator pauses after every task whose id is a
/// multiple of this, for `BURST_PAUSE_MS`.
pub const BURST_EVERY: usize = 50;
pub const BURST_PAUSE_MS: u64 = 100;

/// Otherwise it pauses between these bounds after every task, in milliseconds.
pub const PAUSE_MIN_MS: u64 = 1;
pub const PAUSE_MAX_MS: u64 = 5;

/// The settings of one experiment.
#[derive(Clone, Copy)]
pub struct ExperimentConfig {
    pub name: &'static str,
    pub total_tasks: usize,
    pub workers: usize,
    /// The share of CPU tasks, in percent.
    pub cpu_percent: u32,
    pub bursty: bool,
    pub policy: SchedulingPolicy,
}

impl ExperimentConfig {
    /// The share of IO tasks, in percent.
    pub fn io_percent(&self) -> (p: u32)
        requires
            self.cpu_percent <= 100,
        ensures
            p == 100 - self.cpu_percent,
    {
        100 - self.cpu_percent
    }
}

/// The generator of the workload, seeded with `WORKLOAD_SEED`, so that every
/// run draws the same workload.
pub fn workload_rng() -> (r: WorkloadRng)
    ensures
        r.seed() == WORKLOAD_SEED,
        r.draws() == Seq::<Draw>::empty(),
{
    WorkloadRng::seeded(WORKLOAD_SEED)
}

/// The kind of a task whose percentile draw is `draw`: CPU when the draw is at
/// most the CPU share.
pub open spec fn spec_kind_for_draw(draw: u32, cpu_percent: u32) -> TaskKind {
    if draw <= cpu_percent {
        TaskKind::Cpu
    } else {
        TaskKind::Io
    }
}

/// The kind of a task whose percentile draw (from 1 to 100) is `draw`.
pub fn kind_for_draw(draw: u32, cpu_percent: u32) -> (k: TaskKind)
    ensures
        k == spec_kind_for_draw(draw, cpu_percent),
{
    if draw <= cpu_percent {
        TaskKind::Cpu
    } else {
        TaskKind::Io
    }
}

/// The shortest and longest duration of a task of the kind, in milliseconds.
pub open spec fn spec_duration_bounds(kind: TaskKind) -> (u64, u64) {
    match kind {
        TaskKind::Cpu => (CPU_MIN_MS, CPU_MAX_MS),
        TaskKind::Io => (IO_MIN_MS, IO_MAX_MS),
    }
}

/// The shortest and longest duration of a task of the kind, in milliseconds.
pub fn duration_bounds(kind: TaskKind) -> (b: (u64, u64))
    ensures
        b == spec_duration_bounds(kind),
        b.0 <= b.1,
{
    match kind {
        TaskKind::Cpu => (CPU_MIN_MS, CPU_MAX_MS),
        TaskKind::Io => (IO_MIN_MS, IO_MAX_MS),
    }
}

/// The task with the given id and arrival time whose kind draw and duration
/// draw gave these values: CPU when the kind draw is at most the CPU share.
pub open spec fn spec_task_of_draws(
    id: usize,
    cpu_percent: u32,
    kind_value: int,
    duration_value: int,
    arrival_time: u128,
) -> Task {
    Task {
        id,
        arrival_time,
        kind: spec_kind_for_draw(kind_value as u32, cpu_percent),
        duration: duration_value as u64,
    }
}

/// The task with the given id and arrival time that a generator seeded from
/// `seed`, after the draws `history`, gives.
pub open spec fn spec_generated_task(
    seed: u64,
    history: Seq<(int, int, int)>,
    id: usize,
    cpu_percent: u32,
    arrival_time: u128,
) -> Task {
    let kind_value = drawn_value(seed, history, 32, 1, 100);
    let kind = spec_kind_for_draw(kind_value as u32, cpu_percent);
    let bounds = spec_duration_bounds(kind);
    let duration_value = drawn_value(
        seed,
        history.push((32, 1, 100)),
        64,
        bounds.0 as int,
        bounds.1 as int,
    );
    spec_task_of_draws(id, cpu_percent, kind_value, duration_value, arrival_time)
}

/// The draws asked for once a task has been generated after the draws `history`.
pub open spec fn spec_history_after_task(seed: u64, history: Seq<(int, int, int)>, cpu_percent: u32) -> Seq<
    (int, int, int),
> {
    let kind = spec_generated_task(seed, history, 0, cpu_percent, 0).kind;
    let bounds = spec_duration_bounds(kind);
    history.push((32, 1, 100)).push((64, bounds.0 as int, bounds.1 as int))
}

/// The pause after task `id` that a generator seeded from `seed`, after the
/// draws `history`, gives, and the draws asked for afterwards.
pub open spec fn spec_pause(seed: u64, history: Seq<(int, int, int)>, bursty: bool, id: usize) -> (
    Option<u64>,
    Seq<(int, int, int)>,
) {
    if bursty {
        (
            if id % BURST_EVERY == 0 {
                Some(BURST_PAUSE_MS)
            } else {
                None
            },
            history,
        )
    } else {
        (
            Some(drawn_value(seed, history, 64, PAUSE_MIN_MS as int, PAUSE_MAX_MS as int) as u64),
            history.push((64, PAUSE_MIN_MS as int, PAUSE_MAX_MS as int)),
        )
    }
}

/// One round of the generator: the task with id `id` and the pause after it,
/// from a generator seeded from `seed` after the draws `history`, and the draws
/// asked for afterwards.
pub open spec fn spec_generator_step(
    seed: u64,
    history: Seq<(int, int, int)>,
    cpu_percent: u32,
    bursty: bool,
    id: usize,
    arrival_time: u128,
) -> (Task, Option<u64>, Seq<(int, int, int)>) {
    let task = spec_generated_task(seed, history, id, cpu_percent, arrival_time);
    let after_task = spec_history_after_task(seed, history, cpu_percent);
    let (pause, after_pause) = spec_pause(seed, after_task, bursty, id);
    (task, pause, after_pause)
}

/// A new task with the given id and arrival time: its kind comes from a draw
/// between 1 and 100 held against the CPU share, then its duration from a draw
/// in the bounds of its kind. Exactly these two draws are taken, in this order.
pub fn generate_task(id: usize, config: ExperimentConfig, rng: &mut WorkloadRng, arrival_time: u128) -> (t: Task)
    ensures
        t.id == id,
        t.arrival_time == arrival_time,
        final(rng).seed() == old(rng).seed(),
        ({
            let n = old(rng).draws().len() as int;
            let d = final(rng).draws();
            &&& d.len() == n + 2
            &&& d.subrange(0, n) == old(rng).draws()
            &&& d[n].width == DrawWidth::U32 && d[n].low == 1 && d[n].high == 100
            &&& 1 <= d[n].value <= 100
            &&& d[n + 1].width == DrawWidth::U64
            &&& d[n + 1].low == spec_duration_bounds(t.kind).0
            &&& d[n + 1].high == spec_duration_bounds(t.kind).1
            &&& d[n + 1].low <= d[n + 1].value <= d[n + 1].high
            &&& t == spec_task_of_draws(id, config.cpu_percent, d[n].value, d[n + 1].value, arrival_time)
        }),
        spec_duration_bounds(t.kind).0 <= t.duration <= spec_duration_bounds(t.kind).1,
        t == spec_generated_task(old(rng).seed(), requests(old(rng).draws()), id, config.cpu_percent, arrival_time),
        requests(final(rng).draws()) == spec_history_after_task(old(rng).seed(), requests(old(rng).draws()), config.cpu_percent),
{
    let ghost h = requests(rng.draws());
    let draw = rng.draw_u32(1, 100);
    assert(requests(rng.draws()) =~= h.push((32, 1, 100)));
    let kind = kind_for_draw(draw, config.cpu_percent);
    let (low, high) = duration_bounds(kind);
    let duration = rng.draw_u64(low, high);
    assert(requests(rng.draws()) =~= h.push((32, 1, 100)).push((64, low as int, high as int)));
    assert(rng.draws().subrange(0, old(rng).draws().len() as int) =~= old(rng).draws());
    Task { id, arrival_time, kind, duration }
}

/// How long the generator pauses after the task with id `id`, in
/// milliseconds: in a bursty workload, `BURST_PAUSE_MS` after every
/// `BURST_EVERY`-th task and none otherwise; in a steady one, a draw between
/// `PAUSE_MIN_MS` and `PAUSE_MAX_MS` after every task.
pub fn pause_after(config: ExperimentConfig, id: usize, rng: &mut WorkloadRng) -> (p: Option<u64>)
    ensures
        final(rng).seed() == old(rng).seed(),
        config.bursty ==> p == if id % BURST_EVERY == 0 {
            Some(BURST_PAUSE_MS)
        } else {
            None
        },
        config.bursty ==> final(rng).draws() == old(rng).draws(),
        !config.bursty ==> (p matches Some(ms) && PAUSE_MIN_MS <= ms <= PAUSE_MAX_MS
            && final(rng).draws() == old(rng).draws().push(
            Draw { width: DrawWidth::U64, low: PAUSE_MIN_MS as int, high: PAUSE_MAX_MS as int, value: ms as int },
        )),
        (p, requests(final(rng).draws())) == spec_pause(old(rng).seed(), requests(old(rng).draws()), config.bursty, id),
{
    if config.bursty {
        if id % BURST_EVERY == 0 {
            Some(BURST_PAUSE_MS)
        } else {
            None
        }
    } else {
        let ghost h = requests(rng.draws());
        let ms = rng.draw_u64(PAUSE_MIN_MS, PAUSE_MAX_MS);
        assert(requests(rng.draws()) =~= h.push((64, PAUSE_MIN_MS as int, PAUSE_MAX_MS as int)));
        Some(ms)
    }
}

/// One round of the generator: the task with id `id`, then the pause after it.
pub fn generator_step(config: ExperimentConfig, id: usize, rng: &mut WorkloadRng, arrival_time: u128) -> (r: (
    Task,
    Option<u64>,
))
    ensures
        final(rng).seed() == old(rng).seed(),
        !config.bursty ==> (r.1 matches Some(ms) && PAUSE_MIN_MS <= ms <= PAUSE_MAX_MS),
        final(rng).draws().len() == old(rng).draws().len() + if config.bursty {
            2int
        } else {
            3int
        },
        (r.0, r.1, requests(final(rng).draws())) == spec_generator_step(
            old(rng).seed(),
            requests(old(rng).draws()),
            config.cpu_percent,
            config.bursty,
            id,
            arrival_time,
        ),
{
    let task = generate_task(id, config, rng, arrival_time);
    let pause = pause_after(config, id, rng);
    (task, pause)
}

/// The kind, duration and following pause of each of the first `n` tasks that a
/// generator seeded from `seed` gives, and the draws asked for by then. Arrival
/// times are left out: they come from the clock.
pub open spec fn spec_workload(seed: u64, cpu_percent: u32, bursty: bool, n: nat) -> (
    Seq<(TaskKind, u64, Option<u64>)>,
    Seq<(int, int, int)>,
)
    decreases n,
{
    if n == 0 {
        (Seq::empty(), Seq::empty())
    } else {
        let (done, history) = spec_workload(seed, cpu_percent, bursty, (n - 1) as nat);
        let (task, pause, after) = spec_generator_step(
            seed,
            history,
            cpu_percent,
            bursty,
            (n - 1) as usize,
            0,
        );
        (done.push((task.kind, task.duration, pause)), after)
    }
}

/// What one round of the generator asks of it and returns: a draw from 1 to 100
/// for the kind, held against the CPU share; a draw in the bounds of that kind
/// for the duration; and, in a steady workload, a third draw from
/// `PAUSE_MIN_MS` to `PAUSE_MAX_MS` that is the pause, while a bursty workload
/// draws no pause and pauses `BURST_PAUSE_MS` after every `BURST_EVERY`-th task.
pub proof fn law_generator_round(
    seed: u64,
    history: Seq<(int, int, int)>,
    cpu_percent: u32,
    bursty: bool,
    id: usize,
    arrival_time: u128,
)
    ensures
        ({
            let (t, p, h) = spec_generator_step(seed, history, cpu_percent, bursty, id, arrival_time);
            let n = history.len() as int;
            let kind_value = drawn_value(seed, history, 32, 1, 100);
            &&& h.len() == n + if bursty {
                2int
            } else {
                3int
            }
            &&& h.subrange(0, n) == history
            &&& h[n] == (32int, 1int, 100int)
            &&& t.id == id && t.arrival_time == arrival_time
            &&& (t.kind == TaskKind::Cpu <==> kind_value as u32 <= cpu_percent)
            &&& h[n + 1] == (64int, spec_duration_bounds(t.kind).0 as int, spec_duration_bounds(t.kind).1 as int)
            &&& t.duration == drawn_value(seed, h.subrange(0, n + 1), 64, h[n + 1].1, h[n + 1].2) as u64
            &&& !bursty ==> h[n + 2] == (64int, PAUSE_MIN_MS as int, PAUSE_MAX_MS as int) && p == Some(
                drawn_value(seed, h.subrange(0, n + 2), 64, PAUSE_MIN_MS as int, PAUSE_MAX_MS as int) as u64,
            )
            &&& bursty ==> (p is Some <==> id % BURST_EVERY == 0) && (p is Some ==> p == Some(BURST_PAUSE_MS))
        }),
{
    let (t, p, h) = spec_generator_step(seed, history, cpu_percent, bursty, id, arrival_time);
    let n = history.len() as int;
    assert(h.subrange(0, n) =~= history);
    assert(h.subrange(0, n + 1) =~= history.push((32, 1, 100)));
    let after = spec_history_after_task(seed, history, cpu_percent);
    assert(after[n + 1] == h[n + 1]);
    assert(t.kind == spec_generated_task(seed, history, 0, cpu_percent, 0).kind);
    if !bursty {
        assert(h.subrange(0, n + 2) =~= spec_history_after_task(seed, history, cpu_percent));
    }
}

/// Two generators in the same state, seeded alike and asked for the same draws,
/// give the same task, the same pause and end asking for the same draws; only
/// the arrival time, which is passed in, may differ.
pub proof fn law_equal_states_equal_rounds(
    seed: u64,
    history: Seq<(int, int, int)>,
    cpu_percent: u32,
    bursty: bool,
    id: usize,
    arrival1: u128,
    arrival2: u128,
)
    ensures
        ({
            let (t1, p1, h1) = spec_generator_step(seed, history, cpu_percent, bursty, id, arrival1);
            let (t2, p2, h2) = spec_generator_step(seed, history, cpu_percent, bursty, id, arrival2);
            &&& t1.id == t2.id && t1.kind == t2.kind && t1.duration == t2.duration
            &&& p1 == p2
            &&& h1 == h2
        }),
{
}

/// The workload is fixed by the seed, the CPU share and whether it is bursty:
/// experiments that differ only in their name, policy, number of workers or
/// number of tasks draw the same tasks, in the same order, as far as both go.
pub proof fn law_workload_fixed_by_seed(c1: ExperimentConfig, c2: ExperimentConfig, n: nat)
    requires
        c1.cpu_percent == c2.cpu_percent,
        c1.bursty == c2.bursty,
    ensures
        spec_workload(WORKLOAD_SEED, c1.cpu_percent, c1.bursty, n) == spec_workload(
            WORKLOAD_SEED,
            c2.cpu_percent,
            c2.bursty,
            n,
        ),
{
}

} // verus!
