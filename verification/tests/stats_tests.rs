use coursework::scheduler::TaskKind;
use coursework::stats::{
    count_active, max_wait_index, run_totals, summarize_run, summarize_samples, tally_workers,
    CompletedTask,
};

fn done(task_id: usize, kind: TaskKind, wait_ms: u128, duration_ms: u64, worker_id: usize) -> CompletedTask {
    CompletedTask { task_id, kind, wait_ms, turnaround_ms: wait_ms + duration_ms as u128, duration_ms, worker_id }
}

fn sample_results() -> Vec<CompletedTask> {
    vec![
        done(0, TaskKind::Cpu, 5, 30, 0),
        done(1, TaskKind::Io, 12, 20, 1),
        done(2, TaskKind::Cpu, 7, 40, 0),
        done(3, TaskKind::Io, 12, 15, 2),
        done(4, TaskKind::Cpu, 1, 25, 1),
    ]
}

#[test]
fn totals_sum_and_count_by_kind() {
    let t = run_totals(&sample_results());
    assert_eq!(t.total_completed, 5);
    assert_eq!(t.wait_sum, 37);
    assert_eq!(t.turnaround_sum, 37 + 130);
    assert_eq!(t.cpu_completed, 3);
    assert_eq!(t.io_completed, 2);
    assert_eq!(t.cpu_wait_sum, 13);
    assert_eq!(t.io_wait_sum, 24);
    assert_eq!(t.total_work_time, 130);
}

#[test]
fn totals_of_no_tasks_are_zero() {
    let t = run_totals(&Vec::new());
    assert_eq!(t.total_completed, 0);
    assert_eq!(t.wait_sum, 0);
    assert_eq!(t.total_work_time, 0);
}

#[test]
fn longest_wait_takes_the_last_of_equals() {
    let rs = sample_results();
    assert_eq!(max_wait_index(&rs), Some(3));
    assert_eq!(max_wait_index(&Vec::new()), None);
    let std_choice = rs.iter().enumerate().max_by_key(|(_, r)| r.wait_ms).map(|(i, _)| i);
    assert_eq!(max_wait_index(&rs), std_choice);
}

#[test]
fn worker_tally_and_active_workers() {
    let counts = tally_workers(&sample_results(), 4);
    assert_eq!(counts, vec![2, 2, 1, 0]);
    assert_eq!(count_active(&counts), 3);
    assert_eq!(counts.iter().sum::<usize>(), 5);
}

#[test]
fn run_summary_combines_the_measurements() {
    let s = summarize_run(&sample_results(), 3);
    assert_eq!(s.totals.total_completed, 5);
    assert_eq!(s.worker_task_counts, vec![2, 2, 1]);
    assert_eq!(s.active_workers, 3);
    assert_eq!(s.max_wait_index, Some(3));
}

#[test]
fn queue_samples_summary() {
    let q = summarize_samples(&vec![0, 3, 7, 2, 7, 1]);
    assert_eq!(q.max_queue, 7);
    assert_eq!(q.sample_total, 20);
    assert_eq!(q.sample_count, 6);
    let e = summarize_samples(&Vec::new());
    assert_eq!((e.max_queue, e.sample_total, e.sample_count), (0, 0, 0));
    let big = summarize_samples(&vec![usize::MAX, usize::MAX]);
    assert_eq!(big.sample_total, 2 * usize::MAX as u128);
}
