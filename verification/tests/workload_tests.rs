use coursework::scheduler::{SchedulingPolicy, TaskKind};
use coursework::workload::{
    duration_bounds, generate_task, generator_step, kind_for_draw, pause_after, workload_rng,
    ExperimentConfig,
};
use rand::rngs::StdRng;
use rand::{Rng, SeedableRng};

fn config(cpu_percent: u32, bursty: bool) -> ExperimentConfig {
    ExperimentConfig {
        name: "test",
        total_tasks: 10,
        workers: 2,
        cpu_percent,
        bursty,
        policy: SchedulingPolicy::WeightedRoundRobin,
    }
}

#[test]
fn kind_follows_the_draw() {
    assert_eq!(kind_for_draw(1, 50), TaskKind::Cpu);
    assert_eq!(kind_for_draw(50, 50), TaskKind::Cpu);
    assert_eq!(kind_for_draw(51, 50), TaskKind::Io);
    assert_eq!(kind_for_draw(1, 0), TaskKind::Io);
    assert_eq!(kind_for_draw(100, 100), TaskKind::Cpu);
}

#[test]
fn durations_per_kind() {
    assert_eq!(duration_bounds(TaskKind::Cpu), (25, 80));
    assert_eq!(duration_bounds(TaskKind::Io), (10, 45));
}

#[test]
fn generated_tasks_match_the_seeded_stream() {
    let c = config(30, false);
    let mut rng = workload_rng();
    let mut reference = StdRng::seed_from_u64(42);
    for id in 0..200usize {
        let t = generate_task(id, c, &mut rng, id as u128 * 3);
        let draw: u32 = reference.gen_range(1..=100);
        let kind = if draw <= 30 { TaskKind::Cpu } else { TaskKind::Io };
        let duration: u64 = match kind {
            TaskKind::Cpu => reference.gen_range(25..=80),
            TaskKind::Io => reference.gen_range(10..=45),
        };
        assert_eq!(t.id, id);
        assert_eq!(t.arrival_time, id as u128 * 3);
        assert_eq!(t.kind, kind);
        assert_eq!(t.duration, duration);
        let pause = pause_after(c, id, &mut rng);
        let expected: u64 = reference.gen_range(1..=5);
        assert_eq!(pause, Some(expected));
    }
}

#[test]
fn all_cpu_or_all_io_shares() {
    let mut rng = workload_rng();
    for id in 0..100usize {
        let t = generate_task(id, config(100, false), &mut rng, 0);
        assert_eq!(t.kind, TaskKind::Cpu);
        assert!(25 <= t.duration && t.duration <= 80);
        let u = generate_task(id, config(0, false), &mut rng, 0);
        assert_eq!(u.kind, TaskKind::Io);
        assert!(10 <= u.duration && u.duration <= 45);
    }
}

#[test]
fn bursty_pauses_every_fiftieth_task() {
    let mut rng = workload_rng();
    let c = config(85, true);
    assert_eq!(pause_after(c, 0, &mut rng), Some(100));
    assert_eq!(pause_after(c, 1, &mut rng), None);
    assert_eq!(pause_after(c, 49, &mut rng), None);
    assert_eq!(pause_after(c, 50, &mut rng), Some(100));
    assert_eq!(pause_after(c, 100, &mut rng), Some(100));
}

#[test]
fn io_share_is_the_rest() {
    assert_eq!(config(30, false).io_percent(), 70);
    assert_eq!(config(100, false).io_percent(), 0);
    assert_eq!(config(0, false).io_percent(), 100);
}

#[test]
fn each_task_takes_two_draws_and_each_steady_pause_one() {
    let c = config(50, false);
    let mut rng = workload_rng();
    let mut reference = StdRng::seed_from_u64(42);
    let first = generate_task(0, c, &mut rng, 0);
    let pause = pause_after(c, 0, &mut rng);
    let draw: u32 = reference.gen_range(1..=100);
    let duration: u64 = if draw <= 50 { reference.gen_range(25..=80) } else { reference.gen_range(10..=45) };
    let expected_pause: u64 = reference.gen_range(1..=5);
    assert_eq!(first.duration, duration);
    assert_eq!(pause, Some(expected_pause));
    let bursty = config(50, true);
    for id in 1..5usize {
        assert_eq!(pause_after(bursty, id, &mut rng), None);
    }
    let next = generate_task(1, c, &mut rng, 0);
    let draw: u32 = reference.gen_range(1..=100);
    assert_eq!(next.kind, if draw <= 50 { TaskKind::Cpu } else { TaskKind::Io });
}

#[test]
fn equal_seeds_give_equal_workloads() {
    let steady = config(30, false);
    let other = ExperimentConfig { name: "other", total_tasks: 99, workers: 7, policy: SchedulingPolicy::Fifo, ..steady };
    let mut a = workload_rng();
    let mut b = workload_rng();
    for id in 0..300usize {
        let (ta, pa) = generator_step(steady, id, &mut a, 1);
        let (tb, pb) = generator_step(other, id, &mut b, 2);
        assert_eq!((ta.id, ta.kind, ta.duration, pa), (tb.id, tb.kind, tb.duration, pb));
    }
}
