//! The integer measurements of an experiment: sums, counts and maxima over the
//! completed tasks, the workers and the queue-length samples. Averages and
//! percentages are these sums divided, which the caller does.
use vstd::prelude::*;
use crate::scheduler::TaskKind;

verus! {

/// A task that a worker finished, with its timings in milliseconds.
#[derive(Clone, Copy, Debug)]
pub struct CompletedTask {
    pub task_id: usize,
    pub kind: TaskKind,
    pub wait_ms: u128,
    pub turnaround_ms: u128,
    pub duration_ms: u64,
    pub worker_id: usize,
}

/// The sum of `f` over `s`.
pub open spec fn sum_of<A>(s: Seq<A>, f: spec_fn(A) -> nat) -> nat
    decreases s.len(),
{
    if s.len() == 0 {
        0
    } else {
        sum_of(s.drop_last(), f) + f(s.last())
    }
}

/// How many elements of `s` satisfy `p`.
pub open spec fn count_of<A>(s: Seq<A>, p: spec_fn(A) -> bool) -> nat
    decreases s.len(),
{
    if s.len() == 0 {
        0
    } else {
        count_of(s.drop_last(), p) + if p(s.last()) {
            1nat
        } else {
            0nat
        }
    }
}

/// The largest element of `s`, or 0 when `s` is empty.
pub open spec fn max_of(s: Seq<usize>) -> usize
    decreases s.len(),
{
    if s.len() == 0 {
        0
    } else if max_of(s.drop_last()) < s.last() {
        s.last()
    } else {
        max_of(s.drop_last())
    }
}

/// The wait of a completed task.
pub open spec fn wait_of() -> spec_fn(CompletedTask) -> nat {
    |c: CompletedTask| c.wait_ms as nat
}

/// The turnaround of a completed task.
pub open spec fn turnaround_of() -> spec_fn(CompletedTask) -> nat {
    |c: CompletedTask| c.turnaround_ms as nat
}

/// The running time of a completed task.
pub open spec fn duration_of() -> spec_fn(CompletedTask) -> nat {
    |c: CompletedTask| c.duration_ms as nat
}

/// A sample taken as a number.
pub open spec fn sample_value() -> spec_fn(usize) -> nat {
    |n: usize| n as nat
}

pub open spec fn wait_if_kind(kind: TaskKind) -> spec_fn(CompletedTask) -> nat {
    |c: CompletedTask|
        if c.kind == kind {
            c.wait_ms as nat
        } else {
            0nat
        }
}

pub open spec fn is_kind(kind: TaskKind) -> spec_fn(CompletedTask) -> bool {
    |c: CompletedTask| c.kind == kind
}

pub open spec fn done_by(worker: int) -> spec_fn(CompletedTask) -> bool {
    |c: CompletedTask| c.worker_id == worker
}

pub open spec fn is_positive() -> spec_fn(usize) -> bool {
    |n: usize| n > 0
}

/// The sums and counts over the completed tasks of a run.
#[derive(Clone, Copy, Debug)]
pub struct RunTotals {
    pub total_completed: usize,
    pub wait_sum: u128,
    pub turnaround_sum: u128,
    pub cpu_completed: usize,
    pub io_completed: usize,
    pub cpu_wait_sum: u128,
    pub io_wait_sum: u128,
    pub total_work_time: u64,
}

/// Step lemma: the prefix of length `i + 1` ends with element `i`.
proof fn lemma_take_step<A>(s: Seq<A>, i: int)
    requires
        0 <= i < s.len(),
    ensures
        s.take(i + 1).drop_last() == s.take(i),
        s.take(i + 1).last() == s[i],
{
    assert(s.take(i + 1).drop_last() =~= s.take(i));
}

/// A sum over a sequence is at least the sum over any prefix of it.
proof fn lemma_sum_prefix<A>(s: Seq<A>, f: spec_fn(A) -> nat, i: int)
    requires
        0 <= i <= s.len(),
    ensures
        sum_of(s.take(i), f) <= sum_of(s, f),
    decreases s.len() - i,
{
    if i < s.len() {
        lemma_take_step(s, i);
        lemma_sum_prefix(s, f, i + 1);
    } else {
        assert(s.take(i) =~= s);
    }
}

/// The sum of the per-kind waits never exceeds the sum of all waits.
proof fn lemma_kind_wait_le(s: Seq<CompletedTask>, kind: TaskKind)
    ensures
        sum_of(s, wait_if_kind(kind)) <= sum_of(s, wait_of()),
    decreases s.len(),
{
    if s.len() > 0 {
        lemma_kind_wait_le(s.drop_last(), kind);
    }
}

/// A count is at most the length.
proof fn lemma_count_le<A>(s: Seq<A>, p: spec_fn(A) -> bool)
    ensures
        count_of(s, p) <= s.len(),
    decreases s.len(),
{
    if s.len() > 0 {
        lemma_count_le(s.drop_last(), p);
    }
}

/// The sums and counts of a run over its completed tasks: how many, the total
/// wait and turnaround, how many of each kind and their total waits, and the
/// total time the workers spent running tasks.
pub fn run_totals(results: &Vec<CompletedTask>) -> (t: RunTotals)
    requires
        sum_of(results@, wait_of()) <= u128::MAX,
        sum_of(results@, turnaround_of()) <= u128::MAX,
        sum_of(results@, duration_of()) <= u64::MAX,
    ensures
        t.total_completed == results@.len(),
        t.wait_sum == sum_of(results@, wait_of()),
        t.turnaround_sum == sum_of(results@, turnaround_of()),
        t.cpu_completed == count_of(results@, is_kind(TaskKind::Cpu)),
        t.io_completed == count_of(results@, is_kind(TaskKind::Io)),
        t.cpu_wait_sum == sum_of(results@, wait_if_kind(TaskKind::Cpu)),
        t.io_wait_sum == sum_of(results@, wait_if_kind(TaskKind::Io)),
        t.total_work_time == sum_of(results@, duration_of()),
{
    let ghost rs = results@;
    let mut t = RunTotals {
        total_completed: results.len(),
        wait_sum: 0,
        turnaround_sum: 0,
        cpu_completed: 0,
        io_completed: 0,
        cpu_wait_sum: 0,
        io_wait_sum: 0,
        total_work_time: 0,
    };
    let n = results.len();
    let mut i: usize = 0;
    while i < n
        invariant
            n == rs.len(),
            rs == results@,
            i <= n,
            t.total_completed == n,
            sum_of(rs, wait_of()) <= u128::MAX,
            sum_of(rs, turnaround_of()) <= u128::MAX,
            sum_of(rs, duration_of()) <= u64::MAX,
            t.wait_sum == sum_of(rs.take(i as int), wait_of()),
            t.turnaround_sum == sum_of(rs.take(i as int), turnaround_of()),
            t.total_work_time == sum_of(rs.take(i as int), duration_of()),
            t.cpu_completed == count_of(rs.take(i as int), is_kind(TaskKind::Cpu)),
            t.io_completed == count_of(rs.take(i as int), is_kind(TaskKind::Io)),
            t.cpu_wait_sum == sum_of(rs.take(i as int), wait_if_kind(TaskKind::Cpu)),
            t.io_wait_sum == sum_of(rs.take(i as int), wait_if_kind(TaskKind::Io)),
        decreases n - i,
    {
        let c = results[i];
        proof {
            lemma_take_step(rs, i as int);
            lemma_sum_prefix(rs, wait_of(), i + 1);
            lemma_sum_prefix(rs, turnaround_of(), i + 1);
            lemma_sum_prefix(rs, duration_of(), i + 1);
            lemma_kind_wait_le(rs.take(i + 1), TaskKind::Cpu);
            lemma_kind_wait_le(rs.take(i + 1), TaskKind::Io);
            lemma_count_le(rs.take(i as int), is_kind(TaskKind::Cpu));
            lemma_count_le(rs.take(i as int), is_kind(TaskKind::Io));
        }
        t.wait_sum = t.wait_sum + c.wait_ms;
        t.turnaround_sum = t.turnaround_sum + c.turnaround_ms;
        t.total_work_time = t.total_work_time + c.duration_ms;
        match c.kind {
            TaskKind::Cpu => {
                t.cpu_completed = t.cpu_completed + 1;
                t.cpu_wait_sum = t.cpu_wait_sum + c.wait_ms;
            },
            TaskKind::Io => {
                t.io_completed = t.io_completed + 1;
                t.io_wait_sum = t.io_wait_sum + c.wait_ms;
            },
        }
        i = i + 1;
    }
    assert(rs.take(n as int) =~= rs);
    t
}

/// The position of the task that waited longest; of several that waited
/// equally long, the last. `None` when no task completed.
pub fn max_wait_index(results: &Vec<CompletedTask>) -> (r: Option<usize>)
    ensures
        r is None <==> results@.len() == 0,
        r matches Some(i) ==> {
            &&& i < results@.len()
            &&& forall|j: int| 0 <= j < results@.len() ==> #[trigger] results@[j].wait_ms <= results@[i as int].wait_ms
            &&& forall|j: int| i < j < results@.len() ==> #[trigger] results@[j].wait_ms < results@[i as int].wait_ms
        },
{
    let n = results.len();
    if n == 0 {
        return None;
    }
    let mut best: usize = 0;
    let mut i: usize = 1;
    while i < n
        invariant
            n == results@.len(),
            1 <= i <= n,
            best < i,
            forall|j: int| 0 <= j < i ==> #[trigger] results@[j].wait_ms <= results@[best as int].wait_ms,
            forall|j: int| best < j < i ==> #[trigger] results@[j].wait_ms < results@[best as int].wait_ms,
        decreases n - i,
    {
        if results[i].wait_ms >= results[best].wait_ms {
            best = i;
        }
        i = i + 1;
    }
    Some(best)
}

/// How many tasks each of `workers` workers completed.
pub fn tally_workers(results: &Vec<CompletedTask>, workers: usize) -> (counts: Vec<usize>)
    requires
        forall|i: int| 0 <= i < results@.len() ==> #[trigger] results@[i].worker_id < workers,
    ensures
        counts@.len() == workers,
        forall|w: int| 0 <= w < workers ==> #[trigger] counts@[w] == count_of(results@, done_by(w)),
{
    let ghost rs = results@;
    let mut counts: Vec<usize> = Vec::new();
    let mut w: usize = 0;
    while w < workers
        invariant
            w <= workers,
            counts@.len() == w,
            forall|k: int| 0 <= k < w ==> #[trigger] counts@[k] == 0,
        decreases workers - w,
    {
        counts.push(0);
        w = w + 1;
    }
    let n = results.len();
    let mut i: usize = 0;
    while i < n
        invariant
            n == rs.len(),
            rs == results@,
            i <= n,
            counts@.len() == workers,
            forall|k: int| 0 <= k < rs.len() ==> #[trigger] rs[k].worker_id < workers,
            forall|k: int| 0 <= k < workers ==> #[trigger] counts@[k] == count_of(rs.take(i as int), done_by(k)),
        decreases n - i,
    {
        let id = results[i].worker_id;
        proof {
            lemma_take_step(rs, i as int);
            assert forall|k: int| 0 <= k < workers implies count_of(rs.take(i as int), done_by(k)) <= i by {
                lemma_count_le(rs.take(i as int), done_by(k));
            }
            assert(counts@[id as int] <= i);
        }
        let c = counts[id];
        counts.set(id, c + 1);
        i = i + 1;
        proof {
            assert forall|k: int| 0 <= k < workers implies #[trigger] counts@[k] == count_of(rs.take(i as int), done_by(k)) by {
                assert(rs.take(i as int).drop_last() == rs.take(i - 1));
            }
        }
    }
    assert(rs.take(n as int) =~= rs);
    counts
}

/// How many of the counts are positive: the workers that ran any task.
pub fn count_active(counts: &Vec<usize>) -> (r: usize)
    ensures
        r == count_of(counts@, is_positive()),
{
    let ghost cs = counts@;
    let n = counts.len();
    let mut r: usize = 0;
    let mut i: usize = 0;
    while i < n
        invariant
            n == cs.len(),
            cs == counts@,
            i <= n,
            r == count_of(cs.take(i as int), is_positive()),
        decreases n - i,
    {
        proof {
            lemma_take_step(cs, i as int);
            lemma_count_le(cs.take(i as int), is_positive());
        }
        if counts[i] > 0 {
            r = r + 1;
        }
        i = i + 1;
    }
    assert(cs.take(n as int) =~= cs);
    r
}

/// The integer measurements of a run: its totals, how many tasks each worker
/// completed, how many workers completed any, and where the longest wait is.
#[derive(Debug)]
pub struct RunSummary {
    pub totals: RunTotals,
    pub worker_task_counts: Vec<usize>,
    pub active_workers: usize,
    pub max_wait_index: Option<usize>,
}

/// The integer measurements of a run of `workers` workers over its completed tasks.
pub fn summarize_run(results: &Vec<CompletedTask>, workers: usize) -> (r: RunSummary)
    requires
        forall|i: int| 0 <= i < results@.len() ==> #[trigger] results@[i].worker_id < workers,
        sum_of(results@, wait_of()) <= u128::MAX,
        sum_of(results@, turnaround_of()) <= u128::MAX,
        sum_of(results@, duration_of()) <= u64::MAX,
    ensures
        r.totals.total_completed == results@.len(),
        r.totals.wait_sum == sum_of(results@, wait_of()),
        r.totals.turnaround_sum == sum_of(results@, turnaround_of()),
        r.totals.cpu_completed == count_of(results@, is_kind(TaskKind::Cpu)),
        r.totals.io_completed == count_of(results@, is_kind(TaskKind::Io)),
        r.totals.cpu_wait_sum == sum_of(results@, wait_if_kind(TaskKind::Cpu)),
        r.totals.io_wait_sum == sum_of(results@, wait_if_kind(TaskKind::Io)),
        r.totals.total_work_time == sum_of(results@, duration_of()),
        r.worker_task_counts@.len() == workers,
        forall|w: int| 0 <= w < workers ==> #[trigger] r.worker_task_counts@[w] == count_of(results@, done_by(w)),
        r.active_workers == count_of(r.worker_task_counts@, is_positive()),
        r.max_wait_index is None <==> results@.len() == 0,
        r.max_wait_index matches Some(i) ==> {
            &&& i < results@.len()
            &&& forall|j: int| 0 <= j < results@.len() ==> #[trigger] results@[j].wait_ms <= results@[i as int].wait_ms
            &&& forall|j: int| i < j < results@.len() ==> #[trigger] results@[j].wait_ms < results@[i as int].wait_ms
        },
{
    let totals = run_totals(results);
    let worker_task_counts = tally_workers(results, workers);
    let active_workers = count_active(&worker_task_counts);
    let max_wait_index = max_wait_index(results);
    RunSummary { totals, worker_task_counts, active_workers, max_wait_index }
}

/// What the queue-length samples show: the longest queue, the sum of the
/// samples and how many there are.
#[derive(Clone, Copy, Debug)]
pub struct QueueSummary {
    pub max_queue: usize,
    pub sample_total: u128,
    pub sample_count: usize,
}

/// The longest queue seen, the sum of the samples and their number.
pub fn summarize_samples(samples: &Vec<usize>) -> (q: QueueSummary)
    ensures
        q.max_queue == max_of(samples@),
        q.sample_total == sum_of(samples@, sample_value()),
        q.sample_count == samples@.len(),
{
    let ghost ss = samples@;
    let n = samples.len();
    let mut max_queue: usize = 0;
    let mut total: u128 = 0;
    let mut i: usize = 0;
    while i < n
        invariant
            n == ss.len(),
            ss == samples@,
            i <= n,
            max_queue == max_of(ss.take(i as int)),
            total == sum_of(ss.take(i as int), sample_value()),
            total <= i * 0xffff_ffff_ffff_ffffu128,
        decreases n - i,
    {
        proof {
            lemma_take_step(ss, i as int);
        }
        let x = samples[i];
        assert((i + 1) * 0xffff_ffff_ffff_ffffu128 == i * 0xffff_ffff_ffff_ffffu128 + 0xffff_ffff_ffff_ffffu128) by (nonlinear_arith);
        assert(i * 0xffff_ffff_ffff_ffffu128 <= 0xffff_ffff_ffff_ffffu128 * 0xffff_ffff_ffff_ffffu128) by (nonlinear_arith)
            requires i <= 0xffff_ffff_ffff_ffffu128;
        total = total + x as u128;
        if x > max_queue {
            max_queue = x;
        }
        i = i + 1;
    }
    assert(ss.take(n as int) =~= ss);
    QueueSummary { max_queue, sample_total: total, sample_count: n }
}

/// The longest queue seen is at least every sample and, when there are samples,
/// is one of them.
pub proof fn law_max_queue_bounds(s: Seq<usize>)
    ensures
        forall|i: int| 0 <= i < s.len() ==> #[trigger] s[i] <= max_of(s),
        s.len() > 0 ==> s.contains(max_of(s)),
    decreases s.len(),
{
    if s.len() > 0 {
        law_max_queue_bounds(s.drop_last());
        assert forall|i: int| 0 <= i < s.len() implies #[trigger] s[i] <= max_of(s) by {
            if i < s.len() - 1 {
                assert(s[i] == s.drop_last()[i]);
            }
        }
        if max_of(s.drop_last()) < s.last() {
            assert(s[s.len() - 1] == s.last());
        } else if s.len() == 1 {
            assert(s[0] == max_of(s));
        } else {
            let k = choose|k: int| 0 <= k < s.drop_last().len() && s.drop_last()[k] == max_of(s.drop_last());
            assert(s[k] == max_of(s));
        }
    }
}

/// The completed tasks split by kind: every task is counted once, as CPU or as IO.
pub proof fn law_kinds_partition(s: Seq<CompletedTask>)
    ensures
        count_of(s, is_kind(TaskKind::Cpu)) + count_of(s, is_kind(TaskKind::Io)) == s.len(),
        sum_of(s, wait_if_kind(TaskKind::Cpu)) + sum_of(s, wait_if_kind(TaskKind::Io)) == sum_of(
            s,
            wait_of(),
        ),
    decreases s.len(),
{
    if s.len() > 0 {
        law_kinds_partition(s.drop_last());
    }
}


/// The tasks done by workers `0 .. k`, added up.
pub open spec fn tasks_of_workers(s: Seq<CompletedTask>, k: nat) -> nat
    decreases k,
{
    if k == 0 {
        0
    } else {
        tasks_of_workers(s, (k - 1) as nat) + count_of(s, done_by(k - 1))
    }
}

/// Dropping the last task takes one off the total of the workers that include its worker.
proof fn lemma_tasks_of_workers_step(s: Seq<CompletedTask>, k: nat)
    requires
        s.len() > 0,
    ensures
        tasks_of_workers(s, k) == tasks_of_workers(s.drop_last(), k) + if s.last().worker_id < k {
            1nat
        } else {
            0nat
        },
    decreases k,
{
    if k > 0 {
        lemma_tasks_of_workers_step(s, (k - 1) as nat);
    }
}

/// Every completed task is counted for exactly one worker: when each task names
/// one of `workers` workers, the per-worker counts add up to the number of tasks.
pub proof fn law_worker_counts_total(s: Seq<CompletedTask>, workers: nat)
    requires
        forall|i: int| 0 <= i < s.len() ==> #[trigger] s[i].worker_id < workers,
    ensures
        tasks_of_workers(s, workers) == s.len(),
    decreases s.len(),
{
    if s.len() == 0 {
        lemma_zero_counts(s, workers);
    } else {
        lemma_tasks_of_workers_step(s, workers);
        assert forall|i: int| 0 <= i < s.drop_last().len() implies #[trigger] s.drop_last()[i].worker_id < workers by {
            assert(s.drop_last()[i] == s[i]);
        }
        law_worker_counts_total(s.drop_last(), workers);
        assert(s.last() == s[s.len() - 1]);
    }
}

proof fn lemma_zero_counts(s: Seq<CompletedTask>, k: nat)
    requires
        s.len() == 0,
    ensures
        tasks_of_workers(s, k) == 0,
    decreases k,
{
    if k > 0 {
        lemma_zero_counts(s, (k - 1) as nat);
    }
}

} // verus!
