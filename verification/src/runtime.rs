//! The executor: a shared ready-queue of tasks, a spawner that inserts at
//! the back (fair) or front (priority), a live-task counter, and the
//! scheduling turn that drives tasks to completion.
//!
//! The whole executor state is an explicit [`Runtime`] value, built once by
//! [`setup_runtime`] and threaded through the entry points; a process-wide
//! wrapper holds the single instance and serializes access to it.  Its
//! abstract content is the [`RtState`] model: the queued tasks in order, the
//! task currently being driven to completion, the completion log, and the
//! counters.  Every operation's contract says exactly what it does to that
//! model, and [`RtState::wf`] ties the live-task counter to the tasks that
//! are actually outstanding.
//!
//! Scheduling policy, as one turn of [`Runtime::run_turn`]: a blocking task
//! is driven in a tight loop, ignoring every other queued task, until it
//! completes; a non-blocking task gets one poll and, if suspended, is woken
//! straight back onto the tail of the queue (eager re-poll substitutes for
//! a readiness signal).

use vstd::prelude::*;

use crate::futures::{Poll, Work};
use std::collections::VecDeque;

verus! {

/// One unit of work on the executor: a suspended computation together with
/// the scheduling flag fixed at construction.
pub struct Task {
    /// Distinguishes one task from every other the runtime constructs.
    pub id: u64,
    /// Whether the scheduler, once it dequeues the owning task, must
    /// drive it to completion before touching anything else.
    pub blocking: bool,
    /// The suspended computation the task owns.
    pub work: Work,
}

/// The abstract content of a [`Runtime`].
#[verifier::ext_equal]
pub struct RtState {
    /// The ready tasks, front first.
    pub queue: Seq<Task>,
    /// The blocking task the scheduler is currently driving to completion,
    /// if any.
    pub current: Option<Task>,
    /// The ids of completed tasks, in completion order.
    pub completed: Seq<u64>,
    /// How many tasks have ever been constructed; also the next fresh id.
    pub next_id: int,
    /// The live-task counter: constructed but not yet completed tasks.
    pub live: int,
}

impl RtState {
    /// The state of a freshly set-up runtime.
    pub open spec fn initial() -> RtState {
        RtState {
            queue: Seq::empty(),
            current: None,
            completed: Seq::empty(),
            next_id: 0,
            live: 0,
        }
    }

    /// One if a task is checked out for blocking-drive, zero otherwise.
    pub open spec fn current_count(self) -> int {
        if self.current is Some {
            1
        } else {
            0
        }
    }

    /// How many tasks are constructed but not yet completed.
    pub open spec fn outstanding(self) -> int {
        self.queue.len() + self.current_count()
    }

    /// Whether a task with this id sits in the ready queue.
    pub open spec fn queued(self, id: u64) -> bool {
        exists|i: int| 0 <= i < self.queue.len() && (#[trigger] self.queue[i]).id == id
    }

    /// Whether a task with this id has completed.
    pub open spec fn completed_id(self, id: u64) -> bool {
        self.completed.contains(id)
    }

    /// The runtime's invariant.
    ///
    /// The live-task counter equals the number of constructed-but-not-
    /// completed tasks; every task ever constructed is counted either live
    /// or completed; ids are fresh below `next_id`; and a given task is
    /// enqueued at most once and completed at most once.
    pub open spec fn wf(self) -> bool {
        &&& self.live == self.outstanding()
        &&& self.next_id == self.live + self.completed.len()
        &&& forall|i: int|
            0 <= i < self.queue.len() ==> (#[trigger] self.queue[i]).id < self.next_id
        &&& (self.current matches Some(t) ==> t.id < self.next_id)
        &&& forall|i: int| 0 <= i < self.completed.len() ==> #[trigger] self.completed[i] < self.next_id
        &&& forall|i: int, j: int|
            0 <= i < j < self.queue.len() ==> (#[trigger] self.queue[i]).id != (
            #[trigger] self.queue[j]).id
        &&& forall|i: int, j: int|
            0 <= i < j < self.completed.len() ==> #[trigger] self.completed[i] != (
            #[trigger] self.completed[j])
        &&& forall|i: int|
            0 <= i < self.queue.len() ==> !self.completed_id((#[trigger] self.queue[i]).id)
        &&& (self.current matches Some(t) ==> !self.queued(t.id) && !self.completed_id(t.id))
    }

    /// Constructing a task and enqueueing it: the fresh id is handed out,
    /// the live-task counter rises by one, and the task lands at the front
    /// of the queue when blocking, at the back otherwise.
    pub open spec fn spawn_transition(self, work: Work, blocking: bool) -> RtState {
        let t = Task { id: self.next_id as u64, blocking, work };
        RtState {
            queue: if blocking {
                seq![t] + self.queue
            } else {
                self.queue.push(t)
            },
            next_id: self.next_id + 1,
            live: self.live + 1,
            ..self
        }
    }

    /// A checked-out task completing: its id is logged, the live-task
    /// counter falls by one, and whatever the computation asked to spawn
    /// on completion is constructed as a fresh non-blocking task.
    pub open spec fn completed_task(self, t: Task) -> RtState {
        let done = RtState { completed: self.completed.push(t.id), live: self.live - 1, ..self };
        match t.work.spawn_on_completion() {
            Some(w) => done.spawn_transition(w, false),
            None => done,
        }
    }

    /// One scheduling turn at clock reading `now`: exactly one poll.
    ///
    /// If a blocking task is checked out, it alone is polled — completing
    /// it or keeping it checked out.  Otherwise the front of the queue is
    /// popped and polled once; a suspended blocking task is checked out
    /// for tight re-polling, a suspended non-blocking task is woken
    /// straight back onto the tail, and a ready task completes.  An empty
    /// turn changes nothing.
    pub open spec fn step(self, now: u128) -> RtState {
        match self.current {
            Some(t) => if t.work.ready_at(now) {
                RtState { current: None, ..self }.completed_task(t)
            } else {
                RtState {
                    current: Some(Task { work: t.work.after_poll(now), ..t }),
                    ..self
                }
            },
            None => if self.queue.len() == 0 {
                self
            } else {
                let t = self.queue[0];
                let rest = RtState { queue: self.queue.drop_first(), ..self };
                if t.work.ready_at(now) {
                    rest.completed_task(t)
                } else if t.blocking {
                    RtState { current: Some(Task { work: t.work.after_poll(now), ..t }), ..rest }
                } else {
                    RtState {
                        queue: rest.queue.push(Task { work: t.work.after_poll(now), ..t }),
                        ..rest
                    }
                }
            },
        }
    }

    /// A whole run: one turn per clock reading in `nows`, in order.
    pub open spec fn run(self, nows: Seq<u128>) -> RtState
        decreases nows.len(),
    {
        if nows.len() == 0 {
            self
        } else {
            self.step(nows[0]).run(nows.drop_first())
        }
    }
}

/// The mutually-exclusive, double-ended ready queue of tasks, front first.
pub struct TaskQueue {
    items: VecDeque<Task>,
}

impl View for TaskQueue {
    type V = Seq<Task>;

    closed spec fn view(&self) -> Seq<Task> {
        self.items@
    }
}

impl TaskQueue {
    /// An empty queue.
    pub fn new() -> (q: TaskQueue)
        ensures
            q@ == Seq::<Task>::empty(),
    {
        TaskQueue { items: VecDeque::new() }
    }

    /// How many tasks are queued.
    pub fn len(&self) -> (n: usize)
        ensures
            n == self@.len(),
    {
        self.items.len()
    }

    /// Appends a task at the back.
    pub fn push_back(&mut self, t: Task)
        ensures
            final(self)@ == old(self)@.push(t),
    {
        self.items.push_back(t);
    }

    /// Inserts a task at the front, ahead of everything queued.
    pub fn push_front(&mut self, t: Task)
        ensures
            final(self)@ == seq![t] + old(self)@,
    {
        self.items.push_front(t);
    }

    /// Removes and hands back the front task, if any.
    pub fn pop_front(&mut self) -> (r: Option<Task>)
        ensures
            match r {
                Some(t) => old(self)@.len() > 0 && t == old(self)@[0] && final(self)@ == old(
                    self,
                )@.drop_first(),
                None => old(self)@.len() == 0 && final(self)@ == old(self)@,
            },
    {
        let r = self.items.pop_front();
        proof {
            if old(self)@.len() > 0 {
                assert(final(self)@ =~= old(self)@.drop_first());
            }
        }
        r
    }
}

/// The executor itself: the ready queue, a spawner for it, the live-task
/// counter, and the scheduler's bookkeeping.
pub struct Runtime {
    /// The ready tasks.
    queue: TaskQueue,
    /// A spawner handle for this runtime.
    spawner: Spawner,
    /// Constructed-but-not-completed tasks.
    tasks: u64,
    /// The blocking task currently being driven to completion.
    current: Option<Task>,
    /// Ids of completed tasks, in completion order.
    completed: Vec<u64>,
    /// The next fresh task id; also how many tasks were ever constructed.
    next_id: u64,
}

impl View for Runtime {
    type V = RtState;

    closed spec fn view(&self) -> RtState {
        RtState {
            queue: self.queue@,
            current: self.current,
            completed: self.completed@,
            next_id: self.next_id as int,
            live: self.tasks as int,
        }
    }
}

/// A lightweight, freely copyable capability to put tasks on a runtime's
/// queue.
#[derive(Clone, Copy)]
pub struct Spawner {
}

impl Spawner {
    /// Constructs a fresh non-blocking task for `work` and appends it at
    /// the back of the queue.
    pub fn spawn(self, rt: &mut Runtime, work: Work)
        requires
            old(rt)@.wf(),
            old(rt)@.next_id < u64::MAX,
        ensures
            final(rt)@ == old(rt)@.spawn_transition(work, false),
            final(rt)@.wf(),
    {
        let task = Task::new(false, work, rt);
        self.inner_spawn(rt, task);
        proof {
            lemma_spawn_preserves_wf(old(rt)@, work, false);
        }
    }

    /// Constructs a fresh blocking task for `work` and inserts it at the
    /// front of the queue, ahead of everything already waiting.
    pub fn spawn_blocking(self, rt: &mut Runtime, work: Work)
        requires
            old(rt)@.wf(),
            old(rt)@.next_id < u64::MAX,
        ensures
            final(rt)@ == old(rt)@.spawn_transition(work, true),
            final(rt)@.wf(),
    {
        let task = Task::new(true, work, rt);
        self.inner_spawn_blocking(rt, task);
        proof {
            lemma_spawn_preserves_wf(old(rt)@, work, true);
        }
    }

    /// Pushes an already-constructed task onto the back of the queue; used
    /// both for fresh tasks and for woken ones.
    pub fn inner_spawn(self, rt: &mut Runtime, task: Task)
        ensures
            final(rt)@ == (RtState { queue: old(rt)@.queue.push(task), ..old(rt)@ }),
    {
        rt.queue.push_back(task);
        proof {
            assert(final(rt)@ =~= RtState { queue: old(rt)@.queue.push(task), ..old(rt)@ });
        }
    }

    /// Pushes an already-constructed task onto the front of the queue;
    /// used both for fresh blocking tasks and for woken ones.
    pub fn inner_spawn_blocking(self, rt: &mut Runtime, task: Task)
        ensures
            final(rt)@ == (RtState { queue: seq![task] + old(rt)@.queue, ..old(rt)@ }),
    {
        rt.queue.push_front(task);
        proof {
            assert(final(rt)@ =~= RtState { queue: seq![task] + old(rt)@.queue, ..old(rt)@ });
        }
    }
}

impl Task {
    /// Constructs a new task on the runtime: the fresh id is taken and the
    /// live-task counter is incremented exactly once, here.
    pub fn new(block: bool, work: Work, rt: &mut Runtime) -> (t: Task)
        requires
            old(rt)@.next_id < u64::MAX,
            old(rt)@.live < old(rt)@.next_id + 1,
        ensures
            t.id as int == old(rt)@.next_id,
            t.blocking == block,
            t.work == work,
            final(rt)@ == (RtState {
                next_id: old(rt)@.next_id + 1,
                live: old(rt)@.live + 1,
                ..old(rt)@
            }),
    {
        let id = rt.next_id;
        rt.next_id = rt.next_id + 1;
        rt.tasks = rt.tasks + 1;
        Task { id, blocking: block, work }
    }

    /// Whether the scheduler must drive the owning task to completion
    /// before touching anything else.
    pub fn will_block(&self) -> (r: bool)
        ensures
            r == self.blocking,
    {
        self.blocking
    }

    /// One poll of the task's computation at clock reading `now`.
    pub fn poll(&mut self, now: u128) -> (r: Poll)
        ensures
            r == Poll::Ready <==> old(self).work.ready_at(now),
            *final(self) == (Task { work: old(self).work.after_poll(now), ..*old(self) }),
    {
        let r = self.work.poll(now);
        r
    }

    /// Hands this suspended task back to the runtime for a future turn:
    /// front insertion if it blocks, back insertion otherwise.  This is
    /// the only path by which a suspended task gets another poll.
    ///
    /// A known limitation of the protocol, preserved here: nothing stops
    /// a caller from waking a task that is already queued, which would
    /// enqueue it a second time.  The scheduler itself wakes a task only
    /// after taking it off the queue, and [`RtState::wf`] records that
    /// under that discipline a task is enqueued at most once.
    pub fn wake(self, rt: &mut Runtime)
        ensures
            final(rt)@ == (RtState {
                queue: if self.blocking {
                    seq![self] + old(rt)@.queue
                } else {
                    old(rt)@.queue.push(self)
                },
                ..old(rt)@
            }),
    {
        if self.will_block() {
            let s = rt.spawner();
            s.inner_spawn_blocking(rt, self);
        } else {
            let s = rt.spawner();
            s.inner_spawn(rt, self);
        }
    }
}

impl Runtime {
    /// A copy of this runtime's spawner.
    pub fn spawner(&self) -> (s: Spawner)
    {
        self.spawner
    }

    /// The live-task counter: tasks constructed but not yet completed.
    pub fn live_tasks(&self) -> (n: u64)
        ensures
            n as int == self@.live,
    {
        self.tasks
    }

    /// How many tasks have ever been constructed on this runtime.
    pub fn spawned_total(&self) -> (n: u64)
        ensures
            n as int == self@.next_id,
    {
        self.next_id
    }

    /// The ids of completed tasks, in completion order.
    pub fn completions(&self) -> (c: &Vec<u64>)
        ensures
            c@ == self@.completed,
    {
        &self.completed
    }

    /// Whether the scheduler has a blocking task checked out and is
    /// driving it to the exclusion of everything else.
    pub fn is_driving(&self) -> (r: bool)
        ensures
            r <==> self@.current is Some,
    {
        self.current.is_some()
    }
}

/// Builds the runtime: an empty queue, a spawner for it, and the counters
/// at zero.  A process holds a single instance, created on first use.
pub fn setup_runtime() -> (rt: Runtime)
    ensures
        rt@ == RtState::initial(),
        rt@.wf(),
{
    let rt = Runtime {
        queue: TaskQueue::new(),
        spawner: Spawner {},
        tasks: 0,
        current: None,
        completed: Vec::new(),
        next_id: 0,
    };
    proof {
        assert(rt@ =~= RtState::initial());
    }
    rt
}

/// Enqueues `work` as a fire-and-forget task at the back of the queue.
pub fn spawn(rt: &mut Runtime, work: Work)
    requires
        old(rt)@.wf(),
        old(rt)@.next_id < u64::MAX,
    ensures
        final(rt)@ == old(rt)@.spawn_transition(work, false),
        final(rt)@.wf(),
{
    let s = rt.spawner();
    s.spawn(rt, work);
}

/// Enqueues `work` as a blocking task at the front of the queue: the very
/// next task the scheduler dequeues, which it will then drive to
/// completion to the exclusion of all other queued work.  The call itself
/// returns immediately.
pub fn block_on(rt: &mut Runtime, work: Work)
    requires
        old(rt)@.wf(),
        old(rt)@.next_id < u64::MAX,
    ensures
        final(rt)@ == old(rt)@.spawn_transition(work, true),
        final(rt)@.wf(),
{
    let s = rt.spawner();
    s.spawn_blocking(rt, work);
}

/// One probe of the condition `wait` spins on: whether every directly and
/// transitively spawned task has completed.  A caller blocks by calling
/// this until it reports true.
pub fn wait(rt: &Runtime) -> (done: bool)
    ensures
        done <==> rt@.live == 0,
{
    rt.live_tasks() == 0
}

impl Runtime {
    /// Retires a checked-out task `t` whose computation has completed:
    /// logs its id, decrements the live-task counter, and spawns whatever
    /// the computation asked to start on completion.
    fn complete(&mut self, t: Task)
        requires
            old(self)@.live >= 1,
            old(self)@.live <= old(self)@.next_id,
            old(self)@.next_id < u64::MAX,
        ensures
            final(self)@ == old(self)@.completed_task(t),
    {
        let Task { id, blocking: _, work } = t;
        self.tasks = self.tasks - 1;
        self.completed.push(id);
        match work.into_spawned_child() {
            Some(w) => {
                let child = Task::new(false, w, self);
                let s = self.spawner();
                s.inner_spawn(self, child);
            },
            None => {},
        }
        proof {
            assert(self@ =~= old(self)@.completed_task(t));
        }
    }

    /// One turn of the scheduler's loop at clock reading `now`, performing
    /// at most one poll.
    ///
    /// A checked-out blocking task is re-polled to the exclusion of
    /// everything else until it completes.  Otherwise the front task is
    /// dequeued and polled once: if it is still suspended it is checked
    /// out when blocking — starting the monopolizing tight loop — and
    /// woken onto the tail of the queue when not, there being no readiness
    /// signal to wait for.  Completed tasks are retired and never
    /// re-enqueued.
    pub fn run_turn(&mut self, now: u128)
        requires
            old(self)@.wf(),
            old(self)@.next_id < u64::MAX,
        ensures
            final(self)@ == old(self)@.step(now),
            final(self)@.wf(),
    {
        proof {
            lemma_step_preserves_wf(old(self)@, now);
        }
        let cur = self.current.take();
        match cur {
            Some(mut t) => {
                match t.poll(now) {
                    Poll::Ready => {
                        self.complete(t);
                    },
                    Poll::Suspended => {
                        self.current = Some(t);
                    },
                }
            },
            None => {
                match self.queue.pop_front() {
                    None => {},
                    Some(mut t) => {
                        match t.poll(now) {
                            Poll::Ready => {
                                self.complete(t);
                            },
                            Poll::Suspended => {
                                if t.will_block() {
                                    self.current = Some(t);
                                } else {
                                    t.wake(self);
                                }
                            },
                        }
                    },
                }
            },
        }
        proof {
            assert(self@ =~= old(self)@.step(now));
        }
    }
}

/// Checking the front task out of the queue preserves the invariant: the
/// popped task is unique, fresh, and not yet completed, and the counter
/// still accounts for it.
proof fn lemma_pop_checks_out(s: RtState)
    requires
        s.wf(),
        s.current is None,
        s.queue.len() > 0,
    ensures
        (RtState { queue: s.queue.drop_first(), current: Some(s.queue[0]), ..s }).wf(),
{
    let t = s.queue[0];
    let s2 = RtState { queue: s.queue.drop_first(), current: Some(t), ..s };
    assert(forall|i: int| 0 <= i < s2.queue.len() ==> s2.queue[i] == s.queue[i + 1]);
    assert(!s2.queued(t.id)) by {
        if s2.queued(t.id) {
            let i = choose|i: int| 0 <= i < s2.queue.len() && (#[trigger] s2.queue[i]).id == t.id;
            assert(s.queue[i + 1].id == s.queue[0].id);
            assert(false);
        }
    }
    assert(!s2.completed_id(t.id));
}

/// A checked-out task may keep a different computation state without
/// disturbing the invariant, which reads only its id.
proof fn lemma_current_work_irrelevant(s: RtState, t: Task, t2: Task)
    requires
        (RtState { current: Some(t), ..s }).wf(),
        t2.id == t.id,
    ensures
        (RtState { current: Some(t2), ..s }).wf(),
{
}

/// Waking a checked-out task back onto the tail of the queue preserves
/// the invariant.
proof fn lemma_wake_back_preserves_wf(s: RtState, t: Task)
    requires
        (RtState { current: Some(t), ..s }).wf(),
        s.current is None,
    ensures
        (RtState { queue: s.queue.push(t), ..s }).wf(),
{
    broadcast use vstd::seq_lib::lemma_seq_contains_after_push;

    let sc = RtState { current: Some(t), ..s };
    let s2 = RtState { queue: s.queue.push(t), ..s };
    assert(forall|i: int| 0 <= i < s.queue.len() ==> s2.queue[i] == s.queue[i]);
    assert(s2.queue[s.queue.len() as int] == t);
    assert(!sc.queued(t.id));
    assert(forall|i: int, j: int|
        0 <= i < j < s2.queue.len() ==> (#[trigger] s2.queue[i]).id != (
        #[trigger] s2.queue[j]).id) by {
        assert(forall|i: int|
            0 <= i < s.queue.len() ==> (#[trigger] s2.queue[i]).id != t.id) by {
            assert(forall|i: int|
                0 <= i < s.queue.len() && (#[trigger] s.queue[i]).id == t.id ==> sc.queued(t.id));
        }
    }
}

/// Retiring a checked-out task preserves the invariant: its id joins the
/// completion log exactly once, the counter drops by one, and any
/// completion-spawned child is fresh.
proof fn lemma_complete_preserves_wf(s: RtState, t: Task)
    requires
        (RtState { current: Some(t), ..s }).wf(),
        s.current is None,
        s.next_id < u64::MAX,
    ensures
        s.completed_task(t).wf(),
{
    broadcast use vstd::seq_lib::lemma_seq_contains_after_push;

    let sc = RtState { current: Some(t), ..s };
    let done = RtState { completed: s.completed.push(t.id), live: s.live - 1, ..s };
    assert(forall|i: int| 0 <= i < s.completed.len() ==> done.completed[i] == s.completed[i]);
    assert(done.completed[s.completed.len() as int] == t.id);
    assert(done.wf()) by {
        assert(forall|i: int|
            0 <= i < done.queue.len() ==> !done.completed_id((#[trigger] done.queue[i]).id)) by {
            assert(forall|i: int|
                0 <= i < s.queue.len() && (#[trigger] s.queue[i]).id == t.id ==> sc.queued(t.id));
        }
    }
    match t.work.spawn_on_completion() {
        Some(w) => {
            lemma_spawn_preserves_wf(done, w, false);
        },
        None => {},
    }
}

/// One scheduling turn preserves the invariant.
pub proof fn lemma_step_preserves_wf(s: RtState, now: u128)
    requires
        s.wf(),
        s.next_id < u64::MAX,
    ensures
        s.step(now).wf(),
{
    match s.current {
        Some(t) => {
            let s1 = RtState { current: None, ..s };
            if t.work.ready_at(now) {
                assert((RtState { current: Some(t), ..s1 }) =~= s);
                lemma_complete_preserves_wf(s1, t);
            } else {
                let t2 = Task { work: t.work.after_poll(now), ..t };
                lemma_current_work_irrelevant(s1, t, t2);
                assert((RtState { current: Some(t2), ..s1 }) =~= s.step(now));
            }
        },
        None => {
            if s.queue.len() > 0 {
                let t = s.queue[0];
                let rest = RtState { queue: s.queue.drop_first(), ..s };
                lemma_pop_checks_out(s);
                assert((RtState { current: Some(t), ..rest }) =~= (RtState {
                    queue: s.queue.drop_first(),
                    current: Some(t),
                    ..s
                }));
                if t.work.ready_at(now) {
                    lemma_complete_preserves_wf(rest, t);
                } else {
                    let t2 = Task { work: t.work.after_poll(now), ..t };
                    lemma_current_work_irrelevant(rest, t, t2);
                    if t.blocking {
                        assert((RtState { current: Some(t2), ..rest }) =~= s.step(now));
                    } else {
                        lemma_wake_back_preserves_wf(rest, t2);
                        assert((RtState { queue: rest.queue.push(t2), ..rest }) =~= s.step(now));
                    }
                }
            }
        },
    }
}

/// `wait` returns only once all work is done: in a well-formed runtime
/// the live-task counter is zero exactly when the completion log holds
/// every task ever constructed — directly and transitively spawned alike —
/// and then nothing is queued or checked out.
pub proof fn lemma_wait_means_all_completed(s: RtState)
    requires
        s.wf(),
    ensures
        s.live == 0 <==> s.completed.len() == s.next_id,
        s.live == 0 ==> s.queue.len() == 0 && s.current is None,
{
}

/// Blocking-task monopolization: while a blocking task is checked out, a
/// scheduling turn polls it alone.  Every queued task keeps its place and
/// its state, nothing completes but the blocking task itself, and it
/// stays checked out until the poll that finds it ready.
pub proof fn lemma_blocking_monopolizes(s: RtState, now: u128, b: Task)
    requires
        s.wf(),
        s.current == Some(b),
    ensures
        forall|i: int| 0 <= i < s.queue.len() ==> #[trigger] s.step(now).queue[i] == s.queue[i],
        !b.work.ready_at(now) ==> s.step(now) == (RtState {
            current: Some(Task { work: b.work.after_poll(now), ..b }),
            ..s
        }),
        b.work.ready_at(now) ==> s.step(now).current is None && s.step(now).completed
            == s.completed.push(b.id),
{
    let s2 = s.step(now);
    if b.work.ready_at(now) {
        assert(forall|i: int| 0 <= i < s.queue.len() ==> #[trigger] s2.queue[i] == s.queue[i]);
    } else {
        assert(s2 =~= (RtState { current: Some(Task { work: b.work.after_poll(now), ..b }), ..s }));
    }
}

/// Work enqueued while a blocking task is being driven must wait: the new
/// task — at the very front when itself blocking, at the back otherwise —
/// is neither polled nor completed by a turn taken before the checked-out
/// task has finished.
pub proof fn lemma_spawn_while_driving_waits(s: RtState, now: u128, b: Task, work: Work, blocking: bool)
    requires
        s.wf(),
        s.current == Some(b),
        s.next_id < u64::MAX,
    ensures
        ({
            let t = Task { id: s.next_id as u64, blocking, work };
            let s1 = s.spawn_transition(work, blocking);
            let pos: int = if blocking {
                0
            } else {
                s.queue.len() as int
            };
            &&& s1.queue[pos] == t
            &&& s1.step(now).queue[pos] == t
            &&& !s1.step(now).completed_id(t.id)
        }),
{
    broadcast use vstd::seq_lib::lemma_seq_contains_after_push;

    let t = Task { id: s.next_id as u64, blocking, work };
    let s1 = s.spawn_transition(work, blocking);
    lemma_spawn_preserves_wf(s, work, blocking);
    lemma_blocking_monopolizes(s1, now, b);
    let s2 = s1.step(now);
    assert(!s2.completed_id(t.id)) by {
        if b.work.ready_at(now) {
            assert(s2.completed == s1.completed.push(b.id));
            assert(!s1.completed_id(t.id));
        }
    }
}

/// One turn raises the task count by at most one: only a completion that
/// spawns a child constructs a new task.
proof fn lemma_step_next_id_growth(s: RtState, now: u128)
    ensures
        s.step(now).next_id == s.next_id || s.step(now).next_id == s.next_id + 1,
{
}

/// A whole run preserves the invariant, as long as the id space cannot be
/// exhausted by its turns.
pub proof fn lemma_run_preserves_wf(s: RtState, nows: Seq<u128>)
    requires
        s.wf(),
        s.next_id + nows.len() < u64::MAX,
    ensures
        s.run(nows).wf(),
    decreases nows.len(),
{
    if nows.len() > 0 {
        lemma_step_preserves_wf(s, nows[0]);
        lemma_step_next_id_growth(s, nows[0]);
        lemma_run_preserves_wf(s.step(nows[0]), nows.drop_first());
    }
}

/// Blocking-task monopolization over a whole run: while the checked-out
/// blocking task keeps polling suspended — its computation a pure test of
/// the clock — any number of turns leaves the runtime exactly as it was:
/// every queued task in place and untouched, nothing completed, the same
/// task checked out.  Work enqueued behind it begins being driven only
/// after it finishes.
pub proof fn lemma_blocking_drive_freezes_runtime(s: RtState, nows: Seq<u128>, b: Task)
    requires
        s.wf(),
        s.current == Some(b),
        forall|now: u128| #[trigger] b.work.after_poll(now) == b.work,
        forall|i: int| 0 <= i < nows.len() ==> !b.work.ready_at(nows[i]),
    ensures
        s.run(nows) == s,
    decreases nows.len(),
{
    if nows.len() > 0 {
        lemma_blocking_monopolizes(s, nows[0], b);
        assert(s.step(nows[0]) == s);
        assert(forall|i: int|
            0 <= i < nows.drop_first().len() ==> !b.work.ready_at(nows.drop_first()[i]));
        lemma_blocking_drive_freezes_runtime(s, nows.drop_first(), b);
    }
}

/// Spawning preserves the invariant.
pub proof fn lemma_spawn_preserves_wf(s: RtState, work: Work, blocking: bool)
    requires
        s.wf(),
        s.next_id < u64::MAX,
    ensures
        s.spawn_transition(work, blocking).wf(),
{
    let s2 = s.spawn_transition(work, blocking);
    let t = Task { id: s.next_id as u64, blocking, work };
    if blocking {
        assert(s2.queue == seq![t] + s.queue);
        assert(forall|i: int| 0 <= i < s.queue.len() ==> s2.queue[i + 1] == s.queue[i]);
        assert(s2.queue[0] == t);
    } else {
        assert(s2.queue == s.queue.push(t));
    }
}

} // verus!
