//! An elastic worker pool.
//!
//! Workers are started on demand up to a ceiling, retire after an idle
//! timeout, and hand their results over when the pool shuts down. This
//! module holds the pool's record and every decision that is taken on it.
//! The embedding program keeps the pool behind one lock and one signal; each
//! function here is called with the lock held and says, by its result, what
//! the caller does once the lock is released: block on the signal, wake
//! waiters, run the routine, start a thread.

use crate::chance::random_u64;
use std::collections::VecDeque;
use vstd::prelude::*;

verus! {

/// How long an idle worker waits for work before it retires, in seconds.
pub const IDLE_TIMEOUT_SECS: u64 = 2;

/// Why the pool refused a request.
#[derive(Clone, Copy, Debug, PartialEq, Eq, Structural)]
pub enum WorkqueueError {
    /// The pool is shutting down and takes no more work.
    Quit,
    /// The pool was asked to run with no worker at all.
    Configuration,
}

impl WorkqueueError {
    /// One line for a log or a terminal.
    pub fn message(&self) -> (text: &'static str)
        ensures
            *self == WorkqueueError::Quit ==> text@ == "Workqueue set to quit."@,
            *self == WorkqueueError::Configuration ==> text@
                == "Workqueue needs a parallelism of at least one."@,
    {
        match self {
            WorkqueueError::Quit => "Workqueue set to quit.",
            WorkqueueError::Configuration => "Workqueue needs a parallelism of at least one.",
        }
    }

    /// What the caller did wrong.
    pub fn description(&self) -> (text: &'static str)
        ensures
            *self == WorkqueueError::Quit ==> text@
                == "It's illegal to use a Workqueue that's set to quit."@,
            *self == WorkqueueError::Configuration ==> text@
                == "It's illegal to build a Workqueue without workers."@,
    {
        match self {
            WorkqueueError::Quit => "It's illegal to use a Workqueue that's set to quit.",
            WorkqueueError::Configuration => "It's illegal to build a Workqueue without workers.",
        }
    }
}

/// Where a worker stands in its life.
#[derive(Clone, Copy, Debug, PartialEq, Eq, Structural)]
pub enum WorkerPhase {
    /// About to look at the queue: just started, or done with a task.
    WaitingForWork,
    /// Blocked on the signal; counted as idle.
    Idle,
    /// Holds a task that it took from the queue.
    HasTask,
    /// Found the queue empty after its wait ran out.
    TimedOutNoTask,
    /// Found the queue empty while the pool was shutting down.
    QuitNoTask,
    /// No longer counted as alive; still holds its results.
    SignedOff,
    /// Results handed over; the thread has ended.
    Retired,
}

/// What a worker does once it has released the lock.
#[derive(Clone, Copy, Debug, PartialEq, Eq, Structural)]
pub enum WorkerAction {
    /// Block on the signal for at most the idle timeout, then report how the
    /// wait ended.
    Wait,
    /// Run the routine on the task it holds, then come back.
    Process,
    /// Take the lock again and come back to sign off.
    Retire,
    /// Wake every waiter if `wake_all` is set, then take the lock again and
    /// come back to hand the results over.
    Deposit { wake_all: bool },
    /// End the thread.
    Exit,
}

/// The pool's record as a mathematical value.
pub struct PoolModel<T> {
    pub quit: bool,
    pub threads: nat,
    pub idle: nat,
    pub tasks: Seq<T>,
    pub completed: Seq<Seq<T>>,
}

/// A worker's own state as a mathematical value.
pub struct WorkerModel<T> {
    pub phase: WorkerPhase,
    pub task: Option<T>,
    pub done: Seq<T>,
}

impl<T> WorkerModel<T> {
    /// A worker that has just been started.
    pub open spec fn fresh() -> Self {
        WorkerModel { phase: WorkerPhase::WaitingForWork, task: None, done: Seq::empty() }
    }

    /// The task is held exactly while the phase says so, and a retired
    /// worker holds nothing.
    pub open spec fn wf(self) -> bool {
        &&& self.phase == WorkerPhase::HasTask <==> self.task is Some
        &&& self.phase == WorkerPhase::Retired ==> self.done.len() == 0
    }

    /// The worker after the routine has turned its task into `result`.
    pub open spec fn processed(self, result: T) -> Self {
        WorkerModel {
            phase: WorkerPhase::WaitingForWork,
            task: None,
            done: self.done.push(result),
        }
    }
}

impl<T> PoolModel<T> {
    /// A pool that has seen nothing yet.
    pub open spec fn fresh() -> Self {
        PoolModel {
            quit: false,
            threads: 0,
            idle: 0,
            tasks: Seq::empty(),
            completed: Seq::empty(),
        }
    }

    /// No more idle workers than live ones.
    pub open spec fn wf(self) -> bool {
        self.idle <= self.threads
    }

    /// Well formed, and no more live workers than the ceiling allows.
    pub open spec fn bounded(self, parallelism: nat) -> bool {
        self.idle <= self.threads <= parallelism
    }

    /// A new task finds no idle worker and room for one more.
    pub open spec fn spawns(self, parallelism: nat) -> bool {
        self.idle == 0 && self.threads < parallelism
    }

    /// The pool after it has accepted `task`.
    pub open spec fn accept(self, task: T, parallelism: nat) -> Self {
        PoolModel {
            tasks: self.tasks.push(task),
            threads: if self.spawns(parallelism) {
                self.threads + 1
            } else {
                self.threads
            },
            ..self
        }
    }

    /// The pool after shutdown was asked for.
    pub open spec fn shut(self) -> Self {
        PoolModel { quit: true, ..self }
    }

    /// A worker that looks at the pool now has to wait.
    pub open spec fn starved(self) -> bool {
        self.tasks.len() == 0 && !self.quit
    }

    /// What the counters must grant a worker before it may take its next
    /// step: an idle worker is counted as idle, and a worker that is about
    /// to look at the queue or to sign off is counted as alive and not idle.
    pub open spec fn hosts(self, worker: WorkerModel<T>) -> bool {
        match worker.phase {
            WorkerPhase::Idle => self.idle >= 1,
            WorkerPhase::WaitingForWork
            | WorkerPhase::TimedOutNoTask
            | WorkerPhase::QuitNoTask => self.idle < self.threads,
            _ => true,
        }
    }

    /// The worker blocks: it is counted as idle.
    pub open spec fn park(self, worker: WorkerModel<T>) -> (Self, WorkerModel<T>, WorkerAction) {
        (
            PoolModel { idle: self.idle + 1, ..self },
            WorkerModel { phase: WorkerPhase::Idle, ..worker },
            WorkerAction::Wait,
        )
    }

    /// The worker takes the oldest task, or finds none and decides to leave.
    pub open spec fn claim(self, worker: WorkerModel<T>, timed_out: bool) -> (
        Self,
        WorkerModel<T>,
        WorkerAction,
    ) {
        if self.tasks.len() > 0 {
            (
                PoolModel { tasks: self.tasks.subrange(1, self.tasks.len() as int), ..self },
                WorkerModel { phase: WorkerPhase::HasTask, task: Some(self.tasks[0]), ..worker },
                WorkerAction::Process,
            )
        } else {
            (
                self,
                WorkerModel {
                    phase: if timed_out {
                        WorkerPhase::TimedOutNoTask
                    } else {
                        WorkerPhase::QuitNoTask
                    },
                    ..worker
                },
                WorkerAction::Retire,
            )
        }
    }

    /// One step of a worker under the lock. `timed_out` says how the wait of
    /// an idle worker ended and is not looked at in any other phase.
    pub open spec fn step(self, worker: WorkerModel<T>, timed_out: bool) -> (
        Self,
        WorkerModel<T>,
        WorkerAction,
    ) {
        match worker.phase {
            WorkerPhase::WaitingForWork => {
                if self.starved() {
                    self.park(worker)
                } else {
                    self.claim(worker, false)
                }
            },
            WorkerPhase::Idle => {
                let woken = PoolModel { idle: (self.idle - 1) as nat, ..self };
                if !timed_out && woken.starved() {
                    woken.park(worker)
                } else {
                    woken.claim(worker, timed_out)
                }
            },
            WorkerPhase::HasTask => (self, worker, WorkerAction::Process),
            WorkerPhase::TimedOutNoTask | WorkerPhase::QuitNoTask => (
                PoolModel { threads: (self.threads - 1) as nat, ..self },
                WorkerModel { phase: WorkerPhase::SignedOff, ..worker },
                WorkerAction::Deposit { wake_all: self.threads == 1 },
            ),
            WorkerPhase::SignedOff => (
                PoolModel { completed: self.completed.push(worker.done), ..self },
                WorkerModel { phase: WorkerPhase::Retired, done: Seq::empty(), ..worker },
                WorkerAction::Exit,
            ),
            WorkerPhase::Retired => (self, worker, WorkerAction::Exit),
        }
    }
}

/// A worker decides to leave only when it finds the queue empty, and then
/// only because its wait ran out or because the pool is shutting down. A
/// worker blocks only while there is neither a task nor a shutdown.
pub proof fn lemma_worker_leaves_for_a_reason<T>(
    pool: PoolModel<T>,
    worker: WorkerModel<T>,
    timed_out: bool,
)
    ensures
        pool.step(worker, timed_out).2 == WorkerAction::Retire ==> {
            &&& pool.tasks.len() == 0
            &&& pool.quit || (worker.phase == WorkerPhase::Idle && timed_out)
            &&& pool.step(worker, timed_out).1.phase == if worker.phase == WorkerPhase::Idle
                && timed_out {
                WorkerPhase::TimedOutNoTask
            } else {
                WorkerPhase::QuitNoTask
            }
        },
        pool.step(worker, timed_out).2 == WorkerAction::Wait ==> pool.tasks.len() == 0
            && !pool.quit,
{
}

/// What one worker thread keeps to itself.
#[derive(Debug)]
pub struct Worker<T> {
    /// Where the worker stands.
    pub phase: WorkerPhase,
    /// The task it took and has not processed yet.
    pub task: Option<T>,
    /// The results it produced, oldest first.
    pub tasks_completed: Vec<T>,
}

impl<T> View for Worker<T> {
    type V = WorkerModel<T>;

    open spec fn view(&self) -> WorkerModel<T> {
        WorkerModel { phase: self.phase, task: self.task, done: self.tasks_completed@ }
    }
}

impl<T> Worker<T> {
    /// The state of a thread that has just been started.
    pub fn new() -> (worker: Self)
        ensures
            worker@ == WorkerModel::<T>::fresh(),
    {
        Worker { phase: WorkerPhase::WaitingForWork, task: None, tasks_completed: Vec::new() }
    }

    /// Runs the routine on the task that the worker holds and keeps the
    /// result. Called without the lock. A worker that holds no task is left
    /// as it is.
    pub fn process<F: Fn(T) -> T>(&mut self, routine: &F)
        requires
            old(self)@.wf(),
            forall|task: T| routine.requires((task,)),
        ensures
            final(self)@.wf(),
            old(self).task is None ==> final(self)@ == old(self)@,
            old(self).task is Some ==> exists|result: T|
                {
                    &&& routine.ensures((old(self).task->0,), result)
                    &&& final(self)@ == #[trigger] old(self)@.processed(result)
                },
    {
        match self.task.take() {
            Some(task) => {
                let result = routine(task);
                self.tasks_completed.push(result);
                self.phase = WorkerPhase::WaitingForWork;
                assert(self@ == old(self)@.processed(result));
            },
            None => {},
        }
    }
}

/// The record that the pool's single lock protects.
#[derive(Debug)]
pub struct WorkqueueState<T> {
    /// Once set, no task is admitted and workers begin to retire.
    pub quit: bool,
    /// Workers that were started and have not yet signed off.
    pub thread_counter: usize,
    /// Workers that are blocked waiting for work.
    pub idle_counter: usize,
    /// Pending tasks, oldest first.
    pub tasks: VecDeque<T>,
    /// One entry per retired worker: the results it produced, in order.
    pub completed: Vec<Vec<T>>,
}

impl<T> View for WorkqueueState<T> {
    type V = PoolModel<T>;

    open spec fn view(&self) -> PoolModel<T> {
        PoolModel {
            quit: self.quit,
            threads: self.thread_counter as nat,
            idle: self.idle_counter as nat,
            tasks: self.tasks@,
            completed: self.completed@.map_values(|results: Vec<T>| results@),
        }
    }
}

impl<T> WorkqueueState<T> {
    /// A pool that has seen nothing yet: no worker, no task, no result.
    pub fn new() -> (state: Self)
        ensures
            state@ == PoolModel::<T>::fresh(),
    {
        let state = WorkqueueState {
            quit: false,
            thread_counter: 0,
            idle_counter: 0,
            tasks: VecDeque::new(),
            completed: Vec::new(),
        };
        assert(state@.completed =~= Seq::empty());
        state
    }
}

/// The record together with the routine that every worker applies.
pub struct RawWorkqueue<T, F> {
    /// What the lock protects.
    pub state: WorkqueueState<T>,
    /// The routine; never changed after construction.
    pub routine: F,
}

impl<T, F> View for RawWorkqueue<T, F> {
    type V = PoolModel<T>;

    open spec fn view(&self) -> PoolModel<T> {
        self.state@
    }
}

impl<T, F> RawWorkqueue<T, F> {
    /// A fresh record around `routine`.
    pub fn new(routine: F) -> (raw: Self)
        ensures
            raw@ == PoolModel::<T>::fresh(),
            raw.routine == routine,
    {
        RawWorkqueue { state: WorkqueueState::new(), routine }
    }
}

/// What the caller of `add_task` does once it has released the lock.
#[derive(Debug)]
pub enum Dispatch<T> {
    /// Nothing: every worker is busy and the ceiling is reached.
    Queued,
    /// Wake one waiter on the signal.
    WakeOne,
    /// Start a thread that runs the worker loop on this state.
    Spawn(Worker<T>),
}

/// The pool as its users hold it.
pub struct Workqueue<T, F> {
    /// The shared part.
    pub inner: RawWorkqueue<T, F>,
    /// The most workers that may be alive at once; fixed at construction.
    pub parallelism: usize,
}

impl<T, F> View for Workqueue<T, F> {
    type V = PoolModel<T>;

    open spec fn view(&self) -> PoolModel<T> {
        self.inner@
    }
}

impl<T, F: Fn(T) -> T> Workqueue<T, F> {
    /// The counters respect the ceiling, the ceiling is positive, and the
    /// routine accepts every task.
    pub open spec fn wf(&self) -> bool {
        &&& self.parallelism >= 1
        &&& self@.bounded(self.parallelism as nat)
        &&& forall|task: T| self.inner.routine.requires((task,))
    }

    /// A pool of at most `parallelism` workers that apply `routine`.
    /// A ceiling of zero is refused.
    pub fn new(routine: F, parallelism: usize) -> (pool: Result<Self, WorkqueueError>)
        requires
            forall|task: T| routine.requires((task,)),
        ensures
            parallelism == 0 <==> pool is Err,
            pool matches Err(e) ==> e == WorkqueueError::Configuration,
            pool matches Ok(p) ==> {
                &&& p.wf()
                &&& p@ == PoolModel::<T>::fresh()
                &&& p.parallelism == parallelism
                &&& p.inner.routine == routine
            },
    {
        if parallelism == 0 {
            Err(WorkqueueError::Configuration)
        } else {
            Ok(Workqueue { inner: RawWorkqueue::new(routine), parallelism })
        }
    }

    /// Counts one more live worker and returns the state of its thread.
    fn new_worker(&mut self) -> (worker: Worker<T>)
        requires
            old(self).inner.state.thread_counter < old(self).parallelism,
        ensures
            final(self)@ == (PoolModel { threads: old(self)@.threads + 1, ..old(self)@ }),
            final(self).parallelism == old(self).parallelism,
            final(self).inner.routine == old(self).inner.routine,
            worker@ == WorkerModel::<T>::fresh(),
    {
        self.inner.state.thread_counter = self.inner.state.thread_counter + 1;
        Worker::new()
    }

    /// Puts `task` at the back of the queue and decides who will take it.
    ///
    /// A pool that is shutting down refuses the task and is left untouched.
    /// Otherwise the task is queued; an idle worker is woken if there is one,
    /// else a new worker is counted in and handed out if the ceiling allows
    /// it, else the task waits for a busy worker.
    pub fn add_task(&mut self, task: T) -> (outcome: Result<Dispatch<T>, WorkqueueError>)
        requires
            old(self).wf(),
        ensures
            final(self).wf(),
            final(self).parallelism == old(self).parallelism,
            final(self).inner.routine == old(self).inner.routine,
            old(self)@.quit <==> outcome is Err,
            outcome matches Err(e) ==> e == WorkqueueError::Quit,
            old(self)@.quit ==> final(self)@ == old(self)@,
            !old(self)@.quit ==> final(self)@ == old(self)@.accept(
                task,
                old(self).parallelism as nat,
            ),
            outcome matches Ok(Dispatch::WakeOne) ==> old(self)@.idle > 0,
            outcome matches Ok(Dispatch::Spawn(worker)) ==> old(self)@.spawns(
                old(self).parallelism as nat,
            ) && worker@ == WorkerModel::<T>::fresh(),
            outcome matches Ok(Dispatch::Queued) ==> old(self)@.idle == 0 && old(self)@.threads
                >= old(self).parallelism,
    {
        if self.inner.state.quit {
            return Err(WorkqueueError::Quit);
        }
        self.inner.state.tasks.push_back(task);
        if self.inner.state.idle_counter > 0 {
            Ok(Dispatch::WakeOne)
        } else if self.inner.state.thread_counter < self.parallelism {
            let worker = self.new_worker();
            Ok(Dispatch::Spawn(worker))
        } else {
            Ok(Dispatch::Queued)
        }
    }

    /// One step of a worker under the lock.
    ///
    /// `timed_out` tells an idle worker how its wait ended; in every other
    /// phase it is not looked at. A worker that is about to look at the queue
    /// blocks while there is neither a task nor a shutdown. A worker whose
    /// wait ran out does not look again for a reason to wait: it takes the
    /// oldest task if there is one and leaves if there is none. Leaving takes
    /// two further steps, each under a lock of its own: the worker signs off,
    /// and wakes every waiter if it was the last one alive; then it hands
    /// over its results as one entry.
    pub fn worker_routine(
        workqueue: &mut RawWorkqueue<T, F>,
        worker: &mut Worker<T>,
        timed_out: bool,
    ) -> (action: WorkerAction)
        requires
            old(workqueue)@.wf(),
            old(workqueue)@.hosts(old(worker)@),
            old(worker)@.wf(),
        ensures
            (final(workqueue)@, final(worker)@, action) == old(workqueue)@.step(
                old(worker)@,
                timed_out,
            ),
            final(workqueue)@.wf(),
            final(workqueue)@.threads <= old(workqueue)@.threads,
            final(worker)@.wf(),
            final(workqueue).routine == old(workqueue).routine,
    {
        let mut expired = false;
        match worker.phase {
            WorkerPhase::HasTask => {
                return WorkerAction::Process;
            },
            WorkerPhase::Retired => {
                return WorkerAction::Exit;
            },
            WorkerPhase::TimedOutNoTask | WorkerPhase::QuitNoTask => {
                workqueue.state.thread_counter = workqueue.state.thread_counter - 1;
                worker.phase = WorkerPhase::SignedOff;
                return WorkerAction::Deposit { wake_all: workqueue.state.thread_counter == 0 };
            },
            WorkerPhase::SignedOff => {
                let mut results = Vec::new();
                std::mem::swap(&mut results, &mut worker.tasks_completed);
                workqueue.state.completed.push(results);
                worker.phase = WorkerPhase::Retired;
                assert(workqueue@.completed =~= old(workqueue)@.completed.push(old(worker)@.done));
                assert(worker@.done =~= Seq::empty());
                return WorkerAction::Exit;
            },
            WorkerPhase::Idle => {
                workqueue.state.idle_counter = workqueue.state.idle_counter - 1;
                expired = timed_out;
            },
            WorkerPhase::WaitingForWork => {},
        }
        if !expired && workqueue.state.tasks.len() == 0 && !workqueue.state.quit {
            workqueue.state.idle_counter = workqueue.state.idle_counter + 1;
            worker.phase = WorkerPhase::Idle;
            return WorkerAction::Wait;
        }
        match workqueue.state.tasks.pop_front() {
            Some(task) => {
                worker.task = Some(task);
                worker.phase = WorkerPhase::HasTask;
                WorkerAction::Process
            },
            None => {
                worker.phase = if expired {
                    WorkerPhase::TimedOutNoTask
                } else {
                    WorkerPhase::QuitNoTask
                };
                WorkerAction::Retire
            },
        }
    }
}

impl<T: Copy, F: Fn(T) -> T> Workqueue<T, F> {
    /// Asks for shutdown and, once no worker is alive, returns a copy of
    /// what the retired workers handed over.
    ///
    /// While a worker is still alive the result is `None`: the caller blocks
    /// on the signal and calls again when it is woken. The queue is left as
    /// it is: a task that no worker took before the last one signed off
    /// stays queued and has no result.
    pub fn quit(&mut self) -> (results: Option<Vec<Vec<T>>>)
        requires
            old(self).wf(),
        ensures
            final(self).wf(),
            final(self)@ == old(self)@.shut(),
            final(self).parallelism == old(self).parallelism,
            final(self).inner.routine == old(self).inner.routine,
            old(self)@.threads == 0 <==> results is Some,
            results matches Some(r) ==> r@.map_values(|entry: Vec<T>| entry@)
                == old(self)@.completed,
    {
        self.inner.state.quit = true;
        if self.inner.state.thread_counter > 0 {
            return None;
        }
        Some(copy_results(&self.inner.state.completed))
    }
}

/// A copy of `entry`, element by element.
fn copy_entry<T: Copy>(entry: &Vec<T>) -> (copy: Vec<T>)
    ensures
        copy@ == entry@,
{
    let mut copy: Vec<T> = Vec::new();
    let mut i: usize = 0;
    while i < entry.len()
        invariant
            i <= entry.len(),
            copy@ == entry@.subrange(0, i as int),
        decreases entry.len() - i,
    {
        copy.push(entry[i]);
        i = i + 1;
        assert(copy@ =~= entry@.subrange(0, i as int));
    }
    assert(entry@.subrange(0, i as int) =~= entry@);
    copy
}

/// A copy of `completed`, entry by entry.
fn copy_results<T: Copy>(completed: &Vec<Vec<T>>) -> (copy: Vec<Vec<T>>)
    ensures
        copy@.map_values(|entry: Vec<T>| entry@) == completed@.map_values(
            |entry: Vec<T>| entry@,
        ),
{
    let mut copy: Vec<Vec<T>> = Vec::new();
    let mut i: usize = 0;
    while i < completed.len()
        invariant
            i <= completed.len(),
            copy.len() == i,
            forall|k: int| 0 <= k < i ==> (#[trigger] copy@[k])@ == completed@[k]@,
        decreases completed.len() - i,
    {
        copy.push(copy_entry(&completed[i]));
        i = i + 1;
    }
    assert(copy@.map_values(|entry: Vec<T>| entry@) =~= completed@.map_values(
        |entry: Vec<T>| entry@,
    ));
    copy
}

/// Tasks that each submitter of the sample workload hands in.
pub const ITERATIONS: usize = 25;

/// The upper bound, not reached, of the base of a sample task.
pub const VALUES: u64 = 20;

/// The upper bound, not reached, of the exponent of a sample task.
pub const POWERS: u64 = 7;

/// `base` multiplied by itself until it stands `exp` times.
pub open spec fn power_of(base: nat, exp: nat) -> nat
    decreases exp,
{
    if exp == 0 {
        1
    } else {
        base * power_of(base, (exp - 1) as nat)
    }
}

/// A number that stands once is the number itself.
pub proof fn lemma_power_one(base: nat)
    ensures
        power_of(base, 1) == base,
{
    assert(power_of(base, 0) == 1);
    assert(power_of(base, 1) == base * power_of(base, 0));
    assert(base * 1 == base) by (nonlinear_arith);
}

/// A power of a small base with a small exponent is small.
pub proof fn lemma_power_is_small(base: nat, exp: nat)
    requires
        base < VALUES,
        exp < POWERS,
    ensures
        power_of(base, exp) <= power_of(19, exp),
        power_of(19, exp) <= 47_045_881,
    decreases exp,
{
    reveal_with_fuel(power_of, 8);
    if exp > 0 {
        lemma_power_is_small(base, (exp - 1) as nat);
        let rest = power_of(base, (exp - 1) as nat);
        let most = power_of(19, (exp - 1) as nat);
        assert(base * rest <= 19 * most) by (nonlinear_arith)
            requires
                base <= 19,
                rest <= most,
        ;
    }
}

/// A sample task: a base and an exponent.
#[derive(Clone, Copy, Debug)]
pub struct Power {
    value: u64,
    power: u64,
}

impl Power {
    #[verifier::type_invariant]
    spec fn in_range(self) -> bool {
        self.value < VALUES && self.power < POWERS
    }

    /// The base.
    pub closed spec fn spec_value(&self) -> u64 {
        self.value
    }

    /// The exponent.
    pub closed spec fn spec_power(&self) -> u64 {
        self.power
    }

    /// The task whose base and exponent are what is left of the two draws
    /// when they are divided by the bounds.
    pub fn with_draws(value: u64, power: u64) -> (task: Self)
        ensures
            task.spec_value() == value % VALUES,
            task.spec_power() == power % POWERS,
    {
        Power { value: value % VALUES, power: power % POWERS }
    }

    /// A task drawn at random.
    pub fn new() -> (task: Self)
        ensures
            task.spec_value() < VALUES,
            task.spec_power() < POWERS,
    {
        Power::with_draws(random_u64(), random_u64())
    }

    /// The base.
    #[verifier::when_used_as_spec(spec_value)]
    pub fn value(&self) -> (value: u64)
        ensures
            value == self.spec_value(),
            value < VALUES,
    {
        proof {
            use_type_invariant(self);
        }
        self.value
    }

    /// The exponent.
    #[verifier::when_used_as_spec(spec_power)]
    pub fn power(&self) -> (power: u64)
        ensures
            power == self.spec_power(),
            power < POWERS,
    {
        proof {
            use_type_invariant(self);
        }
        self.power
    }

    /// The base raised to the exponent; an exponent of zero counts as one.
    pub fn raised(&self) -> (product: u64)
        ensures
            self.spec_power() == 0 ==> product == self.spec_value(),
            self.spec_power() > 0 ==> product == power_of(
                self.spec_value() as nat,
                self.spec_power() as nat,
            ),
    {
        proof {
            use_type_invariant(self);
        }
        let mut sum: u64 = self.value;
        let mut i: u64 = 1;
        proof {
            lemma_power_one(self.value as nat);
        }
        while i < self.power
            invariant
                1 <= i < POWERS,
                self.value < VALUES,
                self.power < POWERS,
                self.power > 0 ==> i <= self.power,
                self.power == 0 ==> i == 1,
                sum == power_of(self.value as nat, i as nat),
            decreases POWERS - i,
        {
            proof {
                lemma_power_is_small(self.value as nat, i as nat);
                let grown = power_of(self.value as nat, i as nat);
                assert(self.value * grown <= 19 * 47_045_881) by (nonlinear_arith)
                    requires
                        self.value <= 19,
                        grown <= 47_045_881,
                ;
                assert(grown * self.value == self.value * grown) by (nonlinear_arith);
            }
            sum = sum * self.value;
            i = i + 1;
        }
        proof {
            lemma_power_one(self.value as nat);
        }
        sum
    }

    /// The work on a sample task: the power is worked out, and the task
    /// comes back as it was.
    pub fn routine(task: Power) -> (same: Power)
        ensures
            same == task,
    {
        let _product: u64 = task.raised();
        task
    }
}

} // verus!
