//! Tasks and the dispatcher that queues them and picks the next one to run,
//! first-in first-out or by weighted round robin between CPU and IO tasks.
use vstd::prelude::*;
use std::collections::VecDeque;

verus! {

/// What a task mostly waits on.
#[derive(Clone, Copy, Debug, PartialEq, Eq, Structural)]
pub enum TaskKind {
    Cpu,
    Io,
}

/// How the dispatcher orders the tasks it has queued.
#[derive(Clone, Copy, Debug, PartialEq, Eq, Structural)]
pub enum SchedulingPolicy {
    /// One queue; tasks leave in the order they arrived.
    Fifo,
    /// A CPU queue and an IO queue; two CPU tasks are dispatched for each IO task.
    WeightedRoundRobin,
}

/// A unit of simulated work.
#[derive(Clone, Copy, Debug)]
pub struct Task {
    pub id: usize,
    /// Milliseconds since the experiment started, when the task was created.
    pub arrival_time: u128,
    pub kind: TaskKind,
    /// How long the task runs, in milliseconds.
    pub duration: u64,
}

/// The number of CPU tasks dispatched in a row before an IO task gets a turn.
pub const CPU_TURNS_PER_IO: u32 = 2;

/// What the dispatcher learns from the arrival channel in one round.
pub enum DispatchEvent<T> {
    /// A task of the given kind arrived.
    Arrived(T, TaskKind),
    /// Nothing arrived within the wait.
    Timeout,
    /// The generator is done: no task will arrive any more.
    Disconnected,
}

/// The abstract state of a dispatcher.
pub struct DispatchState<T> {
    pub policy: SchedulingPolicy,
    pub fifo: Seq<T>,
    pub cpu: Seq<T>,
    pub io: Seq<T>,
    /// CPU tasks dispatched since the last IO task (weighted round robin).
    pub cpu_turns: nat,
    /// The number of queued tasks, recorded once per round.
    pub samples: Seq<usize>,
    pub generator_done: bool,
}

/// The number of tasks waiting in all queues.
pub open spec fn queued_len<T>(s: DispatchState<T>) -> nat {
    s.fifo.len() + s.cpu.len() + s.io.len()
}

/// Every waiting task, queue by queue.
pub open spec fn queued<T>(s: DispatchState<T>) -> Seq<T> {
    s.fifo + s.cpu + s.io
}

/// The state invariant of a dispatcher.
pub open spec fn dispatch_wf<T>(s: DispatchState<T>) -> bool {
    &&& s.cpu_turns <= CPU_TURNS_PER_IO
    &&& queued_len(s) <= usize::MAX
    &&& s.policy == SchedulingPolicy::Fifo ==> s.cpu.len() == 0 && s.io.len() == 0 && s.cpu_turns == 0
    &&& s.policy == SchedulingPolicy::WeightedRoundRobin ==> s.fifo.len() == 0
}

/// A fresh dispatcher with the given policy.
pub open spec fn initial_state<T>(policy: SchedulingPolicy) -> DispatchState<T> {
    DispatchState {
        policy,
        fifo: Seq::empty(),
        cpu: Seq::empty(),
        io: Seq::empty(),
        cpu_turns: 0,
        samples: Seq::empty(),
        generator_done: false,
    }
}

/// `s` with `item`, of kind `kind`, queued at the back of the queue that the policy picks.
pub open spec fn spec_enqueue<T>(s: DispatchState<T>, item: T, kind: TaskKind) -> DispatchState<T> {
    match s.policy {
        SchedulingPolicy::Fifo => DispatchState { fifo: s.fifo.push(item), ..s },
        SchedulingPolicy::WeightedRoundRobin => match kind {
            TaskKind::Cpu => DispatchState { cpu: s.cpu.push(item), ..s },
            TaskKind::Io => DispatchState { io: s.io.push(item), ..s },
        },
    }
}

/// The task dispatched next from `s`, and the state after it left.
/// First in, first out; under weighted round robin the CPU queue is served while
/// it has had fewer than two turns in a row, then the IO queue, and whichever
/// queue is left when the other is empty.
pub open spec fn spec_select<T>(s: DispatchState<T>) -> (DispatchState<T>, Option<T>) {
    match s.policy {
        SchedulingPolicy::Fifo => if s.fifo.len() > 0 {
            (DispatchState { fifo: s.fifo.drop_first(), ..s }, Some(s.fifo[0]))
        } else {
            (s, None)
        },
        SchedulingPolicy::WeightedRoundRobin => if s.cpu_turns < CPU_TURNS_PER_IO && s.cpu.len()
            > 0 {
            (
                DispatchState { cpu: s.cpu.drop_first(), cpu_turns: s.cpu_turns + 1, ..s },
                Some(s.cpu[0]),
            )
        } else if s.io.len() > 0 {
            (DispatchState { io: s.io.drop_first(), cpu_turns: 0, ..s }, Some(s.io[0]))
        } else if s.cpu.len() > 0 {
            (DispatchState { cpu: s.cpu.drop_first(), ..s }, Some(s.cpu[0]))
        } else {
            (s, None)
        },
    }
}

/// `s` after the event: an arrival is queued, a disconnection marks the generator done.
pub open spec fn spec_apply_event<T>(s: DispatchState<T>, event: DispatchEvent<T>) -> DispatchState<T> {
    match event {
        DispatchEvent::Arrived(item, kind) => spec_enqueue(s, item, kind),
        DispatchEvent::Timeout => s,
        DispatchEvent::Disconnected => DispatchState { generator_done: true, ..s },
    }
}

/// One round of the dispatcher: take in the event, record the number of queued
/// tasks, then pick the task to dispatch.
pub open spec fn spec_step<T>(s: DispatchState<T>, event: DispatchEvent<T>) -> (DispatchState<T>, Option<T>) {
    let after = spec_apply_event(s, event);
    let sampled = DispatchState { samples: after.samples.push(queued_len(after) as usize), ..after };
    spec_select(sampled)
}

/// Whether the dispatcher loop goes on: the generator may still send, or tasks wait.
pub open spec fn spec_has_work<T>(s: DispatchState<T>) -> bool {
    !s.generator_done || queued_len(s) > 0
}

/// Whether an event can be taken in without the queued count leaving `usize`.
pub open spec fn event_fits<T>(s: DispatchState<T>, event: DispatchEvent<T>) -> bool {
    event is Arrived ==> queued_len(s) < usize::MAX
}

/// The dispatcher of the simulation: its queues, the weighted round-robin
/// counter and the queue-length samples.
pub struct Dispatcher<T> {
    policy: SchedulingPolicy,
    fifo_queue: VecDeque<T>,
    cpu_queue: VecDeque<T>,
    io_queue: VecDeque<T>,
    cpu_turns: u32,
    queue_samples: Vec<usize>,
    generator_done: bool,
}

impl<T> View for Dispatcher<T> {
    type V = DispatchState<T>;

    closed spec fn view(&self) -> DispatchState<T> {
        DispatchState {
            policy: self.policy,
            fifo: self.fifo_queue@,
            cpu: self.cpu_queue@,
            io: self.io_queue@,
            cpu_turns: self.cpu_turns as nat,
            samples: self.queue_samples@,
            generator_done: self.generator_done,
        }
    }
}

impl<T> Dispatcher<T> {
    /// The dispatcher's invariant.
    pub open spec fn wf(&self) -> bool {
        dispatch_wf(self@)
    }

    /// A dispatcher with empty queues that has not heard the generator finish.
    pub fn new(policy: SchedulingPolicy) -> (d: Self)
        ensures
            d.wf(),
            d@ == initial_state::<T>(policy),
    {
        Dispatcher {
            policy,
            fifo_queue: VecDeque::new(),
            cpu_queue: VecDeque::new(),
            io_queue: VecDeque::new(),
            cpu_turns: 0,
            queue_samples: Vec::new(),
            generator_done: false,
        }
    }

    /// The number of tasks waiting.
    pub fn queued_len(&self) -> (n: usize)
        requires
            self.wf(),
        ensures
            n == queued_len(self@),
    {
        self.fifo_queue.len() + self.cpu_queue.len() + self.io_queue.len()
    }

    /// Whether the dispatcher loop goes on.
    pub fn has_work(&self) -> (b: bool)
        requires
            self.wf(),
        ensures
            b == spec_has_work(self@),
    {
        !self.generator_done || self.queued_len() > 0
    }

    /// The queue-length samples recorded so far.
    pub fn samples(&self) -> (r: &Vec<usize>)
        ensures
            r@ == self@.samples,
    {
        &self.queue_samples
    }

    /// Queues `item`, of kind `kind`, as the policy says.
    pub fn enqueue(&mut self, item: T, kind: TaskKind)
        requires
            old(self).wf(),
            queued_len(old(self)@) < usize::MAX,
        ensures
            final(self).wf(),
            final(self)@ == spec_enqueue(old(self)@, item, kind),
    {
        match self.policy {
            SchedulingPolicy::Fifo => self.fifo_queue.push_back(item),
            SchedulingPolicy::WeightedRoundRobin => match kind {
                TaskKind::Cpu => self.cpu_queue.push_back(item),
                TaskKind::Io => self.io_queue.push_back(item),
            },
        }
    }

    /// Takes the task to dispatch next, if any waits.
    pub fn select_next(&mut self) -> (out: Option<T>)
        requires
            old(self).wf(),
        ensures
            final(self).wf(),
            (final(self)@, out) == spec_select(old(self)@),
    {
        match self.policy {
            SchedulingPolicy::Fifo => {
                let r = self.fifo_queue.pop_front();
                r
            },
            SchedulingPolicy::WeightedRoundRobin => {
                if self.cpu_turns < CPU_TURNS_PER_IO && self.cpu_queue.len() > 0 {
                    self.cpu_turns = self.cpu_turns + 1;
                    self.cpu_queue.pop_front()
                } else if self.io_queue.len() > 0 {
                    self.cpu_turns = 0;
                    self.io_queue.pop_front()
                } else if self.cpu_queue.len() > 0 {
                    self.cpu_queue.pop_front()
                } else {
                    None
                }
            },
        }
    }

    /// One round of the dispatcher loop: takes in what the arrival channel
    /// gave, records the number of queued tasks, and returns the task to
    /// hand to the workers, if any.
    pub fn step(&mut self, event: DispatchEvent<T>) -> (out: Option<T>)
        requires
            old(self).wf(),
            event_fits(old(self)@, event),
        ensures
            final(self).wf(),
            (final(self)@, out) == spec_step(old(self)@, event),
    {
        match event {
            DispatchEvent::Arrived(item, kind) => self.enqueue(item, kind),
            DispatchEvent::Timeout => {},
            DispatchEvent::Disconnected => {
                self.generator_done = true;
            },
        }
        let n = self.queued_len();
        self.queue_samples.push(n);
        self.select_next()
    }
}


/// The multiset of a non-empty sequence is that of its tail with its head added.
proof fn lemma_multiset_head<T>(q: Seq<T>)
    requires
        q.len() > 0,
    ensures
        q.to_multiset() == q.drop_first().to_multiset().insert(q[0]),
{
    broadcast use vstd::seq_lib::group_to_multiset_ensures;
    broadcast use vstd::multiset::group_multiset_axioms;

    assert(q =~= seq![q[0]] + q.drop_first());
    vstd::seq_lib::lemma_multiset_commutative(seq![q[0]], q.drop_first());
    assert(seq![q[0]] =~= Seq::<T>::empty().push(q[0]));
    assert(Seq::<T>::empty().to_multiset() =~= vstd::multiset::Multiset::<T>::empty());
    assert(q.drop_first().to_multiset().insert(q[0]) =~= seq![q[0]].to_multiset().add(q.drop_first().to_multiset()));
}

/// The multiset of the waiting tasks, queue by queue.
proof fn lemma_queued_multiset<T>(s: DispatchState<T>)
    ensures
        queued(s).to_multiset() == s.fifo.to_multiset().add(s.cpu.to_multiset()).add(s.io.to_multiset()),
{
    vstd::seq_lib::lemma_multiset_commutative(s.fifo, s.cpu);
    vstd::seq_lib::lemma_multiset_commutative(s.fifo + s.cpu, s.io);
}

/// Dispatching keeps the invariant and loses no task: the task that leaves was
/// waiting, every other waiting task still waits, and nothing but the queues and
/// the round-robin counter changes. Nothing leaves only when nothing waits.
pub proof fn law_select_conserves_tasks<T>(s: DispatchState<T>)
    requires
        dispatch_wf(s),
    ensures
        dispatch_wf(spec_select(s).0),
        spec_select(s).0.policy == s.policy,
        spec_select(s).0.samples == s.samples,
        spec_select(s).0.generator_done == s.generator_done,
        match spec_select(s).1 {
            Some(x) => queued(s).to_multiset() == queued(spec_select(s).0).to_multiset().insert(x)
                && queued_len(spec_select(s).0) + 1 == queued_len(s),
            None => queued_len(s) == 0 && spec_select(s).0 == s,
        },
{
    broadcast use vstd::multiset::group_multiset_axioms;

    let (t, out) = spec_select(s);
    lemma_queued_multiset(s);
    lemma_queued_multiset(t);
    if s.fifo.len() > 0 {
        lemma_multiset_head(s.fifo);
    }
    if s.cpu.len() > 0 {
        lemma_multiset_head(s.cpu);
    }
    if s.io.len() > 0 {
        lemma_multiset_head(s.io);
    }
    match out {
        Some(x) => {
            assert(queued(s).to_multiset() =~= queued(t).to_multiset().insert(x));
        },
        None => {},
    }
}

/// The tasks that an event brings.
pub open spec fn arrivals<T>(event: DispatchEvent<T>) -> Seq<T> {
    match event {
        DispatchEvent::Arrived(item, _) => seq![item],
        _ => Seq::empty(),
    }
}

/// A round of the dispatcher loses and invents no task: what waited, with what
/// arrived, is what waits afterwards with what was dispatched. The round records
/// exactly one sample, the number of tasks waiting once the event is taken in, and
/// a finished generator stays finished.
pub proof fn law_step_conserves_tasks<T>(s: DispatchState<T>, event: DispatchEvent<T>)
    requires
        dispatch_wf(s),
        event_fits(s, event),
    ensures
        ({
            let (t, out) = spec_step(s, event);
            let dispatched = match out {
                Some(x) => seq![x],
                None => Seq::empty(),
            };
            &&& dispatch_wf(t)
            &&& (queued(s) + arrivals(event)).to_multiset() == (queued(t) + dispatched).to_multiset()
            &&& t.samples == s.samples.push((queued_len(s) + arrivals(event).len()) as usize)
            &&& s.generator_done ==> t.generator_done
        }),
{
    broadcast use vstd::seq_lib::group_to_multiset_ensures;
    broadcast use vstd::multiset::group_multiset_axioms;

    let after = spec_apply_event(s, event);
    let sampled = DispatchState { samples: after.samples.push(queued_len(after) as usize), ..after };
    let (t, out) = spec_select(sampled);
    lemma_queued_multiset(s);
    lemma_queued_multiset(after);
    vstd::seq_lib::lemma_multiset_commutative(queued(s), arrivals(event));
    match event {
        DispatchEvent::Arrived(item, kind) => {
            assert(arrivals(event) =~= Seq::<T>::empty().push(item));
            assert(Seq::<T>::empty().to_multiset() =~= vstd::multiset::Multiset::<T>::empty());
        },
        _ => {
            assert(Seq::<T>::empty().to_multiset() =~= vstd::multiset::Multiset::<T>::empty());
            assert(queued(after) == queued(s));
        },
    }
    assert(queued(s).to_multiset().add(arrivals(event).to_multiset()) =~= queued(after).to_multiset());
    law_select_conserves_tasks(sampled);
    assert(queued(sampled) == queued(after));
    let dispatched = match out {
        Some(x) => seq![x],
        None => Seq::<T>::empty(),
    };
    vstd::seq_lib::lemma_multiset_commutative(queued(t), dispatched);
    match out {
        Some(x) => {
            assert(dispatched =~= Seq::<T>::empty().push(x));
            assert(queued(t).to_multiset().add(dispatched.to_multiset()) =~= queued(t).to_multiset().insert(x));
        },
        None => {
            assert(queued(t).to_multiset().add(dispatched.to_multiset()) =~= queued(t).to_multiset());
        },
    }
}

/// The dispatcher is work-conserving: it dispatches a task whenever one waits,
/// whichever queue it waits in.
pub proof fn law_work_conserving<T>(s: DispatchState<T>)
    requires
        dispatch_wf(s),
    ensures
        spec_select(s).1 is Some <==> queued_len(s) > 0,
{
}

/// First in, first out: the task dispatched is the one that has waited longest,
/// and the others keep their order.
pub proof fn law_fifo_order<T>(s: DispatchState<T>)
    requires
        dispatch_wf(s),
        s.policy == SchedulingPolicy::Fifo,
        s.fifo.len() > 0,
    ensures
        spec_select(s).1 == Some(s.fifo[0]),
        spec_select(s).0.fifo == s.fifo.subrange(1, s.fifo.len() as int),
{
}

/// Weighted round robin from a fresh turn, with at least two CPU tasks and one IO
/// task waiting: two CPU tasks leave, in their order, then one IO task, and the
/// counter is back where it started.
pub proof fn law_two_cpu_then_io<T>(s: DispatchState<T>)
    requires
        dispatch_wf(s),
        s.policy == SchedulingPolicy::WeightedRoundRobin,
        s.cpu_turns == 0,
        s.cpu.len() >= 2,
        s.io.len() >= 1,
    ensures
        ({
            let (s1, o1) = spec_select(s);
            let (s2, o2) = spec_select(s1);
            let (s3, o3) = spec_select(s2);
            &&& o1 == Some(s.cpu[0])
            &&& o2 == Some(s.cpu[1])
            &&& o3 == Some(s.io[0])
            &&& s3.cpu == s.cpu.subrange(2, s.cpu.len() as int)
            &&& s3.io == s.io.subrange(1, s.io.len() as int)
            &&& s3.cpu_turns == 0
        }),
{
    let (s1, o1) = spec_select(s);
    let (s2, o2) = spec_select(s1);
    assert(s1.cpu[0] == s.cpu[1]);
    assert(s2.cpu =~= s.cpu.subrange(2, s.cpu.len() as int));
}

/// The number of IO tasks that an event adds to the IO queue.
pub open spec fn io_arrivals<T>(s: DispatchState<T>, event: DispatchEvent<T>) -> nat {
    match event {
        DispatchEvent::Arrived(_, TaskKind::Io) => if s.policy == SchedulingPolicy::WeightedRoundRobin {
            1nat
        } else {
            0nat
        },
        _ => 0nat,
    }
}

/// Under weighted round robin, IO tasks keep making progress: whatever arrives
/// meanwhile, when an IO task waits, one leaves the IO queue within three rounds.
pub proof fn law_io_not_starved<T>(
    s: DispatchState<T>,
    e1: DispatchEvent<T>,
    e2: DispatchEvent<T>,
    e3: DispatchEvent<T>,
)
    requires
        dispatch_wf(s),
        s.policy == SchedulingPolicy::WeightedRoundRobin,
        s.io.len() > 0,
        event_fits(s, e1),
        event_fits(spec_step(s, e1).0, e2),
        event_fits(spec_step(spec_step(s, e1).0, e2).0, e3),
    ensures
        ({
            let s1 = spec_step(s, e1).0;
            let s2 = spec_step(s1, e2).0;
            let s3 = spec_step(s2, e3).0;
            s3.io.len() < s.io.len() + io_arrivals(s, e1) + io_arrivals(s1, e2) + io_arrivals(
                s2,
                e3,
            )
        }),
{
}

/// The round took its task from the CPU queue: the CPU queue lost one task
/// between the event being taken in and the end of the round.
pub open spec fn round_took_cpu<T>(s: DispatchState<T>, event: DispatchEvent<T>) -> bool {
    spec_step(s, event).0.cpu.len() + 1 == spec_apply_event(s, event).cpu.len()
}

/// Under weighted round robin an IO task never waits behind more than two CPU
/// tasks in a row: whatever arrives meanwhile, when two rounds in a row
/// dispatched CPU tasks and an IO task waits in the third, the third dispatches
/// the IO task at the head of its queue. This holds also when the CPU tasks
/// were taken only because the IO queue was empty.
pub proof fn law_io_after_two_cpu<T>(
    s: DispatchState<T>,
    e1: DispatchEvent<T>,
    e2: DispatchEvent<T>,
    e3: DispatchEvent<T>,
)
    requires
        dispatch_wf(s),
        s.policy == SchedulingPolicy::WeightedRoundRobin,
        event_fits(s, e1),
        event_fits(spec_step(s, e1).0, e2),
        event_fits(spec_step(spec_step(s, e1).0, e2).0, e3),
        round_took_cpu(s, e1),
        round_took_cpu(spec_step(s, e1).0, e2),
        spec_apply_event(spec_step(spec_step(s, e1).0, e2).0, e3).io.len() > 0,
    ensures
        ({
            let s2 = spec_step(spec_step(s, e1).0, e2).0;
            let a3 = spec_apply_event(s2, e3);
            &&& spec_step(s2, e3).1 == Some(a3.io[0])
            &&& spec_step(s2, e3).0.io == a3.io.drop_first()
            &&& spec_step(s2, e3).0.cpu == a3.cpu
        }),
{
    let s1 = spec_step(s, e1).0;
    law_step_conserves_tasks(s, e1);
    law_step_conserves_tasks(s1, e2);
    assert(s1.cpu_turns >= 1);
}

/// A round keeps or sets the generator's end, never clears it, and only a
/// disconnection sets it: an arrival or a timeout leaves it as it was, so a
/// dispatcher whose generator may still send keeps working after such a round.
pub proof fn law_only_disconnect_ends_generator<T>(s: DispatchState<T>, event: DispatchEvent<T>)
    ensures
        event is Disconnected ==> spec_step(s, event).0.generator_done,
        !(event is Disconnected) ==> spec_step(s, event).0.generator_done == s.generator_done,
        !(event is Disconnected) && !s.generator_done ==> spec_has_work(spec_step(s, event).0),
{
}

/// A round with a timeout changes nothing but the recorded sample and the
/// queue that the dispatched task leaves: it adds no task, and the counter of
/// CPU turns moves only with a dispatch.
pub proof fn law_timeout_only_samples_and_dispatches<T>(s: DispatchState<T>)
    requires
        dispatch_wf(s),
    ensures
        ({
            let (t, out) = spec_step(s, DispatchEvent::Timeout);
            &&& t.generator_done == s.generator_done
            &&& t.policy == s.policy
            &&& t.samples == s.samples.push(queued_len(s) as usize)
            &&& out is None ==> t.fifo == s.fifo && t.cpu == s.cpu && t.io == s.io && t.cpu_turns
                == s.cpu_turns
            &&& out is Some ==> queued_len(t) + 1 == queued_len(s)
        }),
{
    let sampled = DispatchState { samples: s.samples.push(queued_len(s) as usize), ..s };
    law_select_conserves_tasks(sampled);
}

/// `n` dispatches in a row, without arrivals.
pub open spec fn select_n<T>(s: DispatchState<T>, n: nat) -> DispatchState<T>
    decreases n,
{
    if n == 0 {
        s
    } else {
        select_n(spec_select(s).0, (n - 1) as nat)
    }
}

/// Once arrivals stop, the dispatcher empties its queues: after as many
/// dispatches as tasks wait, none waits any more.
pub proof fn law_queues_drain<T>(s: DispatchState<T>)
    requires
        dispatch_wf(s),
    ensures
        queued_len(select_n(s, queued_len(s))) == 0,
        dispatch_wf(select_n(s, queued_len(s))),
    decreases queued_len(s),
{
    if queued_len(s) > 0 {
        law_select_conserves_tasks(s);
        let t = spec_select(s).0;
        law_queues_drain(t);
        assert(queued_len(s) - 1 == queued_len(t));
    }
}


/// The dispatcher after one round for each event, in order, from `s`.
pub open spec fn run_events<T>(s: DispatchState<T>, events: Seq<DispatchEvent<T>>) -> DispatchState<T>
    decreases events.len(),
{
    if events.len() == 0 {
        s
    } else {
        spec_step(run_events(s, events.drop_last()), events.last()).0
    }
}

/// How many of the events are arrivals.
pub open spec fn arrival_count<T>(events: Seq<DispatchEvent<T>>) -> nat
    decreases events.len(),
{
    if events.len() == 0 {
        0
    } else {
        arrival_count(events.drop_last()) + if events.last() is Arrived {
            1nat
        } else {
            0nat
        }
    }
}

/// What a run from a fresh dispatcher keeps, round after round.
proof fn lemma_run_bounds<T>(policy: SchedulingPolicy, events: Seq<DispatchEvent<T>>)
    requires
        events.len() <= usize::MAX,
    ensures
        ({
            let t = run_events(initial_state::<T>(policy), events);
            &&& dispatch_wf(t)
            &&& queued_len(t) <= arrival_count(events)
            &&& arrival_count(events) <= events.len()
            &&& t.samples.len() == events.len()
            &&& forall|k: int|
                0 <= k < events.len() ==> #[trigger] t.samples[k] <= arrival_count(events.take(k + 1))
                    && (events[k] is Arrived ==> t.samples[k] >= 1)
        }),
    decreases events.len(),
{
    if events.len() > 0 {
        let p = events.drop_last();
        lemma_run_bounds(policy, p);
        let s = run_events(initial_state::<T>(policy), p);
        let e = events.last();
        let after = spec_apply_event(s, e);
        let sampled = DispatchState { samples: after.samples.push(queued_len(after) as usize), ..after };
        law_select_conserves_tasks(sampled);
        assert(events.take(events.len() as int) =~= events);
        assert forall|k: int| 0 <= k < p.len() implies p.take(k + 1) == events.take(k + 1) && p[k] == events[k] by {
            assert(p.take(k + 1) =~= events.take(k + 1));
        }
    }
}

/// In a run from a fresh dispatcher, each round records one sample, and the
/// sample is never more than the tasks that have arrived so far, and at least
/// one in a round in which a task arrived.
pub proof fn law_queue_samples_bounded<T>(policy: SchedulingPolicy, events: Seq<DispatchEvent<T>>)
    requires
        events.len() <= usize::MAX,
    ensures
        ({
            let t = run_events(initial_state::<T>(policy), events);
            &&& t.samples.len() == events.len()
            &&& forall|k: int|
                0 <= k < events.len() ==> #[trigger] t.samples[k] <= arrival_count(events.take(k + 1))
                    && (events[k] is Arrived ==> t.samples[k] >= 1)
        }),
{
    lemma_run_bounds(policy, events);
}

} // verus!
