use coursework::scheduler::{DispatchEvent, Dispatcher, SchedulingPolicy, Task, TaskKind};

fn task(id: usize, kind: TaskKind) -> Task {
    Task { id, arrival_time: id as u128, kind, duration: 10 }
}

fn ids(out: &[Option<Task>]) -> Vec<Option<usize>> {
    out.iter().map(|t| t.map(|t| t.id)).collect()
}

#[test]
fn fifo_dispatches_in_arrival_order() {
    let mut d: Dispatcher<Task> = Dispatcher::new(SchedulingPolicy::Fifo);
    d.enqueue(task(0, TaskKind::Io), TaskKind::Io);
    d.enqueue(task(1, TaskKind::Cpu), TaskKind::Cpu);
    d.enqueue(task(2, TaskKind::Io), TaskKind::Io);
    let out: Vec<Option<Task>> = (0..4).map(|_| d.select_next()).collect();
    assert_eq!(ids(&out), vec![Some(0), Some(1), Some(2), None]);
}

#[test]
fn weighted_round_robin_two_cpu_then_one_io() {
    let mut d: Dispatcher<Task> = Dispatcher::new(SchedulingPolicy::WeightedRoundRobin);
    for (i, k) in [TaskKind::Cpu, TaskKind::Cpu, TaskKind::Cpu, TaskKind::Cpu, TaskKind::Io, TaskKind::Io]
        .iter()
        .enumerate()
    {
        d.enqueue(task(i, *k), *k);
    }
    let out: Vec<Option<Task>> = (0..7).map(|_| d.select_next()).collect();
    assert_eq!(ids(&out), vec![Some(0), Some(1), Some(4), Some(2), Some(3), Some(5), None]);
}

#[test]
fn weighted_round_robin_uses_remaining_queue() {
    let mut d: Dispatcher<Task> = Dispatcher::new(SchedulingPolicy::WeightedRoundRobin);
    for i in 0..4 {
        d.enqueue(task(i, TaskKind::Cpu), TaskKind::Cpu);
    }
    let out: Vec<Option<Task>> = (0..5).map(|_| d.select_next()).collect();
    assert_eq!(ids(&out), vec![Some(0), Some(1), Some(2), Some(3), None]);

    let mut d: Dispatcher<Task> = Dispatcher::new(SchedulingPolicy::WeightedRoundRobin);
    for i in 0..3 {
        d.enqueue(task(i, TaskKind::Io), TaskKind::Io);
    }
    let out: Vec<Option<Task>> = (0..4).map(|_| d.select_next()).collect();
    assert_eq!(ids(&out), vec![Some(0), Some(1), Some(2), None]);
}

#[test]
fn io_task_served_within_three_rounds_under_cpu_load() {
    let mut d: Dispatcher<Task> = Dispatcher::new(SchedulingPolicy::WeightedRoundRobin);
    d.enqueue(task(100, TaskKind::Io), TaskKind::Io);
    let mut seen_io = false;
    for i in 0..3 {
        let out = d.step(DispatchEvent::Arrived(task(i, TaskKind::Cpu), TaskKind::Cpu));
        if out.map(|t| t.id) == Some(100) {
            seen_io = true;
        }
    }
    assert!(seen_io);
}

#[test]
fn step_records_samples_and_stops_when_done() {
    let mut d: Dispatcher<Task> = Dispatcher::new(SchedulingPolicy::Fifo);
    assert!(d.has_work());
    let a = d.step(DispatchEvent::Arrived(task(0, TaskKind::Cpu), TaskKind::Cpu));
    assert_eq!(a.map(|t| t.id), Some(0));
    let b = d.step(DispatchEvent::Timeout);
    assert!(b.is_none());
    d.enqueue(task(1, TaskKind::Io), TaskKind::Io);
    d.enqueue(task(2, TaskKind::Io), TaskKind::Io);
    let c = d.step(DispatchEvent::Disconnected);
    assert_eq!(c.map(|t| t.id), Some(1));
    assert!(d.has_work());
    assert_eq!(d.queued_len(), 1);
    let e = d.step(DispatchEvent::Timeout);
    assert_eq!(e.map(|t| t.id), Some(2));
    assert!(!d.has_work());
    assert_eq!(d.samples(), &vec![1, 0, 2, 1]);
}
