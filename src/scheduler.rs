use std::collections::VecDeque;
use vstd::prelude::*;

verus! {

/// Where a task stands in the executor.
#[derive(Clone, Copy, Debug, PartialEq, Eq, Structural)]
pub enum TaskStatus {
    /// Returned `Pending` and waits for a wake.
    Idle,
    /// In the ready queue, waiting for its next poll.
    Queued,
    /// Being polled now; `woken` records a wake that arrived during the poll.
    Running { woken: bool },
    /// Returned `Ready`: it is never polled again.
    Done,
}

/// Abstract state of an executor.
pub struct ExecState {
    /// Ready queue, front first.
    pub queue: Seq<u64>,
    /// Status of each task, indexed by task id (ids are given out in order of spawning).
    pub status: Seq<TaskStatus>,
    /// The task being polled, if any.
    pub running: Option<u64>,
    /// Every poll made so far, in order, by task id.
    pub polled: Seq<u64>,
}

/// One input to the executor.
pub enum Event {
    /// A task is spawned.
    Spawn,
    /// A waker of the task with this id is invoked.
    Wake(u64),
    /// The executor takes the next task off the queue and starts its poll.
    Poll,
    /// The poll under way returns: `true` for `Ready`.
    Finish(bool),
}

impl ExecState {
    /// Whether `id` has been given out to a task.
    pub open spec fn has_task(self, id: u64) -> bool {
        id < self.status.len()
    }

    /// Every queued id names a task with status `Queued` and appears once;
    /// every `Queued` task is in the queue; the running task, if any, is the
    /// one task with status `Running`.
    pub open spec fn inv(self) -> bool {
        &&& self.status.len() <= u64::MAX
        &&& forall|i: int|
            #![trigger self.queue[i]]
            0 <= i < self.queue.len() ==> self.queue[i] < self.status.len()
                && self.status[self.queue[i] as int] == TaskStatus::Queued
        &&& forall|i: int, j: int|
            0 <= i < self.queue.len() && 0 <= j < self.queue.len() && i != j ==> self.queue[i]
                != self.queue[j]
        &&& forall|id: int|
            #![trigger self.status[id]]
            0 <= id < self.status.len() && self.status[id] == TaskStatus::Queued
                ==> self.queue.contains(id as u64)
        &&& forall|id: int|
            #![trigger self.status[id]]
            0 <= id < self.status.len() && self.status[id] is Running ==> self.running == Some(
                id as u64,
            )
        &&& match self.running {
            Some(r) => r < self.status.len() && self.status[r as int] is Running,
            None => true,
        }
    }

    /// A new task gets the next id and is queued once.
    pub open spec fn spawned(self) -> ExecState {
        ExecState {
            queue: self.queue.push(self.status.len() as u64),
            status: self.status.push(TaskStatus::Queued),
            ..self
        }
    }

    /// A wake queues an idle task, marks a running one, and does nothing to a
    /// queued, finished or unknown one.
    pub open spec fn woken(self, id: u64) -> ExecState {
        if self.has_task(id) {
            match self.status[id as int] {
                TaskStatus::Idle => ExecState {
                    queue: self.queue.push(id),
                    status: self.status.update(id as int, TaskStatus::Queued),
                    ..self
                },
                TaskStatus::Running { .. } => ExecState {
                    status: self.status.update(id as int, TaskStatus::Running { woken: true }),
                    ..self
                },
                _ => self,
            }
        } else {
            self
        }
    }

    /// The front of the queue starts its poll, unless a poll is under way or
    /// the queue is empty.
    pub open spec fn popped(self) -> (ExecState, Option<u64>) {
        if self.running is None && self.queue.len() > 0 {
            let id = self.queue[0];
            (
                ExecState {
                    queue: self.queue.drop_first(),
                    status: self.status.update(id as int, TaskStatus::Running { woken: false }),
                    running: Some(id),
                    polled: self.polled.push(id),
                },
                Some(id),
            )
        } else {
            (self, None)
        }
    }

    /// The poll under way ends: `Ready` finishes the task; `Pending` leaves it
    /// idle, or queues it again if it was woken during the poll.
    pub open spec fn completed(self, ready: bool) -> ExecState {
        match self.running {
            Some(id) => {
                if ready {
                    ExecState {
                        status: self.status.update(id as int, TaskStatus::Done),
                        running: None,
                        ..self
                    }
                } else if self.status[id as int] == (TaskStatus::Running { woken: true }) {
                    ExecState {
                        queue: self.queue.push(id),
                        status: self.status.update(id as int, TaskStatus::Queued),
                        running: None,
                        ..self
                    }
                } else {
                    ExecState {
                        status: self.status.update(id as int, TaskStatus::Idle),
                        running: None,
                        ..self
                    }
                }
            },
            None => self,
        }
    }

    /// The state after one event. A spawn when no id is left changes nothing.
    pub open spec fn step(self, e: Event) -> ExecState {
        match e {
            Event::Spawn => if self.status.len() < u64::MAX {
                self.spawned()
            } else {
                self
            },
            Event::Wake(id) => self.woken(id),
            Event::Poll => self.popped().0,
            Event::Finish(ready) => self.completed(ready),
        }
    }

    /// The state after a sequence of events, first to last.
    pub open spec fn run(self, es: Seq<Event>) -> ExecState
        decreases es.len(),
    {
        if es.len() == 0 {
            self
        } else {
            self.step(es[0]).run(es.drop_first())
        }
    }
}


proof fn lemma_spawned_inv(s: ExecState)
    requires
        s.inv(),
        s.status.len() < u64::MAX,
    ensures
        s.spawned().inv(),
{
    let t = s.spawned();
    let n = s.status.len() as u64;
    assert forall|id: int|
        #![trigger t.status[id]]
        0 <= id < t.status.len() && t.status[id] == TaskStatus::Queued implies t.queue.contains(
        id as u64,
    ) by {
        if id < s.status.len() {
            let k = choose|k: int| 0 <= k < s.queue.len() && s.queue[k] == id as u64;
            assert(t.queue[k] == id as u64);
        } else {
            assert(t.queue[s.queue.len() as int] == n);
        }
    }
}

proof fn lemma_woken_inv(s: ExecState, id: u64)
    requires
        s.inv(),
    ensures
        s.woken(id).inv(),
{
    let t = s.woken(id);
    if s.has_task(id) && s.status[id as int] == TaskStatus::Idle {
        assert(!s.queue.contains(id));
        assert forall|x: int|
            #![trigger t.status[x]]
            0 <= x < t.status.len() && t.status[x] == TaskStatus::Queued implies t.queue.contains(
            x as u64,
        ) by {
            if x == id {
                assert(t.queue[s.queue.len() as int] == id);
            } else {
                let k = choose|k: int| 0 <= k < s.queue.len() && s.queue[k] == x as u64;
                assert(t.queue[k] == x as u64);
            }
        }
    }
}

proof fn lemma_popped_inv(s: ExecState)
    requires
        s.inv(),
    ensures
        s.popped().0.inv(),
        s.popped().1 is Some ==> s.queue.len() > 0 && s.popped().1 == Some(s.queue[0])
            && s.status[s.queue[0] as int] == TaskStatus::Queued,
{
    if s.running is None && s.queue.len() > 0 {
        let t = s.popped().0;
        let id = s.queue[0];
        assert(s.status[id as int] == TaskStatus::Queued);
        assert forall|x: int|
            #![trigger t.status[x]]
            0 <= x < t.status.len() && t.status[x] == TaskStatus::Queued implies t.queue.contains(
            x as u64,
        ) by {
            let k = choose|k: int| 0 <= k < s.queue.len() && s.queue[k] == x as u64;
            assert(k != 0);
            assert(t.queue[k - 1] == x as u64);
        }
        assert forall|i: int|
            #![trigger t.queue[i]]
            0 <= i < t.queue.len() implies t.queue[i] < t.status.len() && t.status[t.queue[i] as int]
            == TaskStatus::Queued by {
            assert(t.queue[i] == s.queue[i + 1]);
        }
        assert forall|i: int, j: int|
            0 <= i < t.queue.len() && 0 <= j < t.queue.len() && i != j implies t.queue[i]
            != t.queue[j] by {
            assert(t.queue[i] == s.queue[i + 1]);
            assert(t.queue[j] == s.queue[j + 1]);
        }
        assert forall|x: int|
            #![trigger t.status[x]]
            0 <= x < t.status.len() && t.status[x] is Running implies t.running == Some(
            x as u64,
        ) by {
            if x != id as int {
                assert(s.status[x] == t.status[x]);
            }
        }
    }
}

proof fn lemma_completed_inv(s: ExecState, ready: bool)
    requires
        s.inv(),
    ensures
        s.completed(ready).inv(),
{
    if let Some(id) = s.running {
        let t = s.completed(ready);
        assert(!s.queue.contains(id));
        assert forall|x: int|
            #![trigger t.status[x]]
            0 <= x < t.status.len() && t.status[x] == TaskStatus::Queued implies t.queue.contains(
            x as u64,
        ) by {
            if x == id {
                assert(t.queue[s.queue.len() as int] == id);
            } else {
                let k = choose|k: int| 0 <= k < s.queue.len() && s.queue[k] == x as u64;
                assert(t.queue[k] == x as u64);
            }
        }
        assert forall|x: int|
            #![trigger t.status[x]]
            0 <= x < t.status.len() && t.status[x] is Running implies t.running == Some(
            x as u64,
        ) by {
            assert(s.status[x] == t.status[x]);
        }
    }
}

proof fn lemma_step_inv(s: ExecState, e: Event)
    requires
        s.inv(),
    ensures
        s.step(e).inv(),
{
    match e {
        Event::Spawn => if s.status.len() < u64::MAX {
            lemma_spawned_inv(s);
        },
        Event::Wake(id) => lemma_woken_inv(s, id),
        Event::Poll => lemma_popped_inv(s),
        Event::Finish(ready) => lemma_completed_inv(s, ready),
    }
}


/// Once a task has returned `Ready`, no sequence of events queues it or
/// polls it again.
pub proof fn lemma_done_is_final(s: ExecState, es: Seq<Event>, id: u64)
    requires
        s.inv(),
        s.has_task(id),
        s.status[id as int] == TaskStatus::Done,
    ensures
        s.run(es).inv(),
        s.run(es).has_task(id),
        s.run(es).status[id as int] == TaskStatus::Done,
        !s.run(es).queue.contains(id),
        s.run(es).running != Some(id),
        s.polled.len() <= s.run(es).polled.len(),
        s.run(es).polled.subrange(0, s.polled.len() as int) == s.polled,
        forall|i: int|
            s.polled.len() <= i < s.run(es).polled.len() ==> s.run(es).polled[i] != id,
    decreases es.len(),
{
    if es.len() == 0 {
        assert(s.polled.subrange(0, s.polled.len() as int) =~= s.polled);
    } else {
        let t = s.step(es[0]);
        lemma_step_inv(s, es[0]);
        lemma_popped_inv(s);
        assert(t.status[id as int] == TaskStatus::Done);
        assert(t.polled.len() >= s.polled.len());
        assert(t.polled.subrange(0, s.polled.len() as int) =~= s.polled);
        assert(forall|i: int| s.polled.len() <= i < t.polled.len() ==> t.polled[i] != id);
        lemma_done_is_final(t, es.drop_first(), id);
        let w = t.run(es.drop_first());
        assert(s.run(es) == w);
        assert(w.polled.subrange(0, s.polled.len() as int) =~= w.polled.subrange(
            0,
            t.polled.len() as int,
        ).subrange(0, s.polled.len() as int));
        assert forall|i: int| s.polled.len() <= i < w.polled.len() implies w.polled[i] != id by {
            if i < t.polled.len() {
                assert(w.polled[i] == w.polled.subrange(0, t.polled.len() as int)[i]);
            }
        }
    }
}

/// A computation that returns `Ready` at its first poll: spawned on an
/// executor with nothing queued or running, it is the next task polled, it is
/// polled exactly once, and no later event queues it or polls it again.
pub proof fn lemma_ready_at_first_poll(s: ExecState, es: Seq<Event>)
    requires
        s.inv(),
        s.running is None,
        s.queue.len() == 0,
        s.status.len() < u64::MAX,
    ensures
        ({
            let id = s.status.len() as u64;
            let p = s.spawned().popped();
            let u = p.0.completed(true);
            let w = u.run(es);
            &&& p.1 == Some(id)
            &&& u.polled == s.polled.push(id)
            &&& w.status[id as int] == TaskStatus::Done
            &&& !w.queue.contains(id)
            &&& forall|i: int| u.polled.len() <= i < w.polled.len() ==> w.polled[i] != id
        }),
{
    let id = s.status.len() as u64;
    lemma_spawned_inv(s);
    lemma_popped_inv(s.spawned());
    let u = s.spawned().popped().0.completed(true);
    lemma_completed_inv(s.spawned().popped().0, true);
    lemma_done_is_final(u, es, id);
}

/// The executor after `k` rounds in which task `id` is polled, wakes itself,
/// and returns `Pending`.
pub open spec fn yield_rounds(s: ExecState, id: u64, k: nat) -> ExecState
    decreases k,
{
    if k == 0 {
        s
    } else {
        yield_rounds(s.popped().0.woken(id).completed(false), id, (k - 1) as nat)
    }
}

/// The state of a lone task `id` queued after `j` polls.
spec fn lone_queued(s: ExecState, id: u64, j: nat) -> ExecState {
    ExecState {
        queue: seq![id],
        status: s.status.push(TaskStatus::Queued),
        running: None,
        polled: s.polled + Seq::new(j, |i: int| id),
    }
}

proof fn lemma_yield_rounds_lone(s: ExecState, j: nat, k: nat)
    requires
        s.status.len() < u64::MAX,
    ensures
        yield_rounds(lone_queued(s, s.status.len() as u64, j), s.status.len() as u64, k)
            == lone_queued(s, s.status.len() as u64, j + k),
    decreases k,
{
    let id = s.status.len() as u64;
    if k > 0 {
        let a = lone_queued(s, id, j);
        let b = a.popped().0.woken(id).completed(false);
        let c = lone_queued(s, id, j + 1);
        assert(b.queue =~= c.queue);
        assert(b.status =~= c.status);
        assert(b.polled =~= c.polled);
        lemma_yield_rounds_lone(s, j + 1, (k - 1) as nat);
    }
}

/// A computation that wakes itself and returns `Pending` `n` times, then
/// returns `Ready`: spawned on an executor with nothing queued or running, it
/// is polled exactly `n + 1` times, each time as the next task polled, and
/// ends finished with nothing left in the queue.
pub proof fn lemma_pending_then_ready(s: ExecState, n: nat)
    requires
        s.inv(),
        s.running is None,
        s.queue.len() == 0,
        s.status.len() < u64::MAX,
    ensures
        ({
            let id = s.status.len() as u64;
            let t = yield_rounds(s.spawned(), id, n);
            let p = t.popped();
            let u = p.0.completed(true);
            &&& forall|k: nat| k <= n ==> (#[trigger] yield_rounds(s.spawned(), id, k)).popped().1
                == Some(id)
            &&& u.polled == s.polled + Seq::new(n + 1, |i: int| id)
            &&& u.status[id as int] == TaskStatus::Done
            &&& u.queue.len() == 0
            &&& u.running is None
        }),
{
    let id = s.status.len() as u64;
    assert(s.spawned() == lone_queued(s, id, 0)) by {
        assert(s.spawned().queue =~= seq![id]);
        assert(s.polled + Seq::new(0, |i: int| id) =~= s.polled);
    }
    assert forall|k: nat| k <= n implies (#[trigger] yield_rounds(s.spawned(), id, k)).popped().1
        == Some(id) by {
        lemma_yield_rounds_lone(s, 0, k);
    }
    lemma_yield_rounds_lone(s, 0, n);
    let u = yield_rounds(s.spawned(), id, n).popped().0.completed(true);
    assert(u.polled =~= s.polled + Seq::new(n + 1, |i: int| id));
}

/// Waking a task twice before its next poll has the effect of waking it once.
pub proof fn lemma_wake_idempotent(s: ExecState, id: u64)
    requires
        s.inv(),
    ensures
        s.woken(id).woken(id) == s.woken(id),
{
    let t = s.woken(id);
    if s.has_task(id) {
        match s.status[id as int] {
            TaskStatus::Running { .. } => {
                assert(t.woken(id).status =~= t.status);
            },
            _ => {},
        }
    }
}

/// A wake of a task that has not finished is never lost: afterwards the task
/// sits in the queue exactly once, or it is being polled and goes back into
/// the queue, exactly once, if that poll returns `Pending`.
pub proof fn lemma_wake_not_lost(s: ExecState, id: u64)
    requires
        s.inv(),
        s.has_task(id),
        s.status[id as int] != TaskStatus::Done,
    ensures
        s.woken(id).inv(),
        s.woken(id).status[id as int] == TaskStatus::Queued || s.woken(id).status[id as int]
            == (TaskStatus::Running { woken: true }),
        s.woken(id).status[id as int] == TaskStatus::Queued ==> s.woken(id).queue.contains(id),
        s.woken(id).status[id as int] == (TaskStatus::Running { woken: true }) ==> s.woken(
            id,
        ).completed(false).inv() && s.woken(id).completed(false).queue.contains(id),
        forall|i: int, j: int|
            0 <= i < s.woken(id).queue.len() && 0 <= j < s.woken(id).queue.len()
                && s.woken(id).queue[i] == id && s.woken(id).queue[j] == id ==> i == j,
{
    let t = s.woken(id);
    lemma_woken_inv(s, id);
    if t.status[id as int] == (TaskStatus::Running { woken: true }) {
        lemma_completed_inv(t, false);
        assert(t.completed(false).queue[t.queue.len() as int] == id);
    }
}

/// A wake that reaches a task after it has finished, or that names an id the
/// executor never gave out (its task was dropped with another executor),
/// changes nothing.
pub proof fn lemma_stale_wake_is_noop(s: ExecState, id: u64)
    requires
        !s.has_task(id) || s.status[id as int] == TaskStatus::Done,
    ensures
        s.woken(id) == s,
{
}

/// A single-threaded cooperative executor: a FIFO ready queue of task ids and
/// the status of every task it has spawned. Polling the computations and
/// carrying wakes in from other threads is left to the caller, which feeds
/// each outcome back.
pub struct MiniTokio {
    scheduled: VecDeque<u64>,
    status: Vec<TaskStatus>,
    running: Option<u64>,
    polled: Ghost<Seq<u64>>,
}

impl View for MiniTokio {
    type V = ExecState;

    closed spec fn view(&self) -> ExecState {
        ExecState {
            queue: self.scheduled@,
            status: self.status@,
            running: self.running,
            polled: self.polled@,
        }
    }
}

impl MiniTokio {
    /// The abstract state satisfies the executor's invariant.
    pub open spec fn wf(&self) -> bool {
        self@.inv()
    }

    /// An executor with no task.
    pub fn new() -> (r: MiniTokio)
        ensures
            r.wf(),
            r@.queue.len() == 0,
            r@.status.len() == 0,
            r@.running is None,
            r@.polled.len() == 0,
    {
        MiniTokio {
            scheduled: VecDeque::new(),
            status: Vec::new(),
            running: None,
            polled: Ghost(Seq::empty()),
        }
    }

    /// Spawns a task: it gets the next id and is queued once, so that it is
    /// polled at least once without waiting for a wake.
    pub fn spawn(&mut self) -> (id: u64)
        requires
            old(self).wf(),
            old(self)@.status.len() < u64::MAX,
        ensures
            final(self).wf(),
            id == old(self)@.status.len(),
            final(self)@ == old(self)@.spawned(),
    {
        proof {
            lemma_spawned_inv(self@);
        }
        let id = self.status.len() as u64;
        self.status.push(TaskStatus::Queued);
        self.scheduled.push_back(id);
        id
    }

    /// Number of tasks spawned so far.
    pub fn task_count(&self) -> (n: u64)
        requires
            self.wf(),
        ensures
            n == self@.status.len(),
    {
        self.status.len() as u64
    }

    /// The task being polled, if any.
    pub fn running(&self) -> (r: Option<u64>)
        ensures
            r == self@.running,
    {
        self.running
    }

    /// Status of task `id`, or `None` for an id that was never given out.
    pub fn status(&self, id: u64) -> (r: Option<TaskStatus>)
        ensures
            r == (if self@.has_task(id) {
                Some(self@.status[id as int])
            } else {
                None
            }),
    {
        if id < self.status.len() as u64 {
            Some(self.status[id as usize])
        } else {
            None
        }
    }

    /// Wakes task `id`. Waking a task that has finished, or an id that was
    /// never given out, changes nothing.
    pub fn wake(&mut self, id: u64)
        requires
            old(self).wf(),
        ensures
            final(self).wf(),
            final(self)@ == old(self)@.woken(id),
    {
        proof {
            lemma_woken_inv(self@, id);
        }
        if id >= self.status.len() as u64 {
            return ;
        }
        let i = id as usize;
        match self.status[i] {
            TaskStatus::Idle => {
                self.status.set(i, TaskStatus::Queued);
                self.scheduled.push_back(id);
            },
            TaskStatus::Running { .. } => {
                self.status.set(i, TaskStatus::Running { woken: true });
            },
            _ => {},
        }
    }

    /// Takes the next task off the ready queue and starts its poll. Returns
    /// `None` while a poll is under way or when no task is ready.
    pub fn next_task(&mut self) -> (r: Option<u64>)
        requires
            old(self).wf(),
        ensures
            final(self).wf(),
            (final(self)@, r) == old(self)@.popped(),
    {
        proof {
            lemma_popped_inv(self@);
        }
        if self.running.is_some() {
            return None;
        }
        let ghost before = self@;
        match self.scheduled.pop_front() {
            Some(id) => {
                assert(id < self.status.len() && self.status@[id as int] == TaskStatus::Queued);
                self.status.set(id as usize, TaskStatus::Running { woken: false });
                self.running = Some(id);
                self.polled = Ghost(self.polled@.push(id));
                assert(self@.queue =~= before.popped().0.queue);
                assert(self@.status =~= before.popped().0.status);
                assert(self@.polled =~= before.popped().0.polled);
                Some(id)
            },
            None => None,
        }
    }

    /// Ends the poll under way with its outcome: `true` for `Ready`.
    pub fn finish_poll(&mut self, ready: bool)
        requires
            old(self).wf(),
            old(self)@.running is Some,
        ensures
            final(self).wf(),
            final(self)@ == old(self)@.completed(ready),
    {
        proof {
            lemma_completed_inv(self@, ready);
        }
        let ghost before = self@;
        let id = self.running.unwrap();
        assert(id < self.status.len());
        let i = id as usize;
        if ready {
            self.status.set(i, TaskStatus::Done);
        } else if self.status[i] == (TaskStatus::Running { woken: true }) {
            self.status.set(i, TaskStatus::Queued);
            self.scheduled.push_back(id);
        } else {
            self.status.set(i, TaskStatus::Idle);
        }
        self.running = None;
        assert(self@.status =~= before.completed(ready).status);
        assert(self@.queue =~= before.completed(ready).queue);
    }
}


/// Spawns a task on the executor registered as current for the calling
/// thread. Calling it with no executor registered is a programming error,
/// ruled out by the precondition.
pub fn spawn(current: &mut Option<MiniTokio>) -> (id: u64)
    requires
        old(current).is_some(),
        old(current).unwrap().wf(),
        old(current).unwrap()@.status.len() < u64::MAX,
    ensures
        final(current).is_some(),
        final(current).unwrap().wf(),
        id == old(current).unwrap()@.status.len(),
        final(current).unwrap()@ == old(current).unwrap()@.spawned(),
{
    match current {
        Some(rt) => rt.spawn(),
        None => 0,
    }
}

} // verus!
