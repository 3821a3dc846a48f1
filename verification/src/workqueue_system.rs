//! The pool and its workers seen as one system.
//!
//! A worker pool is more than its record: what the counters mean, and where
//! every task has gone, can only be said of the record together with the
//! state of every worker that was ever started. This module puts the two
//! side by side, lets the system move by the same steps that the executable
//! functions take, and proves what holds of every state it can reach.

use crate::workqueue::{PoolModel, WorkerModel, WorkerPhase};
use vstd::prelude::*;

verus! {

/// The record, every worker ever started, and the number of tasks accepted.
pub struct System<T> {
    pub pool: PoolModel<T>,
    pub workers: Seq<WorkerModel<T>>,
    pub accepted: nat,
    pub parallelism: nat,
}

/// What can happen to the system, one lock hold at a time.
pub enum Event<T> {
    /// A call of `add_task`.
    AddTask { task: T },
    /// A call of `quit`.
    Quit,
    /// A call of `worker_routine` by the worker of that number.
    Step { worker: int, timed_out: bool },
    /// A call of `process` by the worker of that number, in which the
    /// routine returned `result`.
    Process { worker: int, result: T },
}

/// The sum of the weights of all items.
pub open spec fn tally<A>(items: Seq<A>, weight: spec_fn(A) -> nat) -> nat
    decreases items.len(),
{
    if items.len() == 0 {
        0
    } else {
        tally(items.drop_last(), weight) + weight(items.last())
    }
}

/// One for a worker that is blocked on the signal.
pub open spec fn idle_weight<T>() -> spec_fn(WorkerModel<T>) -> nat {
    |w: WorkerModel<T>|
        if w.phase == WorkerPhase::Idle {
            1nat
        } else {
            0nat
        }
}

/// One for a worker that is counted as alive and is not blocked.
pub open spec fn active_weight<T>() -> spec_fn(WorkerModel<T>) -> nat {
    |w: WorkerModel<T>|
        if w.phase == WorkerPhase::WaitingForWork || w.phase == WorkerPhase::HasTask || w.phase
            == WorkerPhase::TimedOutNoTask || w.phase == WorkerPhase::QuitNoTask {
            1nat
        } else {
            0nat
        }
}

/// One for a worker that has handed its results over.
pub open spec fn retired_weight<T>() -> spec_fn(WorkerModel<T>) -> nat {
    |w: WorkerModel<T>|
        if w.phase == WorkerPhase::Retired {
            1nat
        } else {
            0nat
        }
}

/// The tasks that a worker is accountable for: its results, and the task
/// that it holds.
pub open spec fn held_weight<T>() -> spec_fn(WorkerModel<T>) -> nat {
    |w: WorkerModel<T>|
        w.done.len() + if w.task is Some {
            1nat
        } else {
            0nat
        }
}

/// The length of one entry of results.
pub open spec fn entry_weight<T>() -> spec_fn(Seq<T>) -> nat {
    |entry: Seq<T>| entry.len()
}

/// The number of results in all entries together.
pub open spec fn total_results<T>(completed: Seq<Seq<T>>) -> nat {
    tally(completed, entry_weight())
}

impl<T> System<T> {
    /// A pool that was just built, with no worker.
    pub open spec fn init(parallelism: nat) -> Self {
        System { pool: PoolModel::fresh(), workers: Seq::empty(), accepted: 0, parallelism }
    }

    /// The event names a worker that exists, and only a worker that holds a
    /// task processes one.
    pub open spec fn enabled(self, event: Event<T>) -> bool {
        match event {
            Event::AddTask { .. } => true,
            Event::Quit => true,
            Event::Step { worker, .. } => 0 <= worker < self.workers.len(),
            Event::Process { worker, .. } => 0 <= worker < self.workers.len()
                && self.workers[worker].phase == WorkerPhase::HasTask,
        }
    }

    /// The system after the event.
    pub open spec fn apply(self, event: Event<T>) -> Self {
        match event {
            Event::AddTask { task } => if self.pool.quit {
                self
            } else {
                System {
                    pool: self.pool.accept(task, self.parallelism),
                    workers: if self.pool.spawns(self.parallelism) {
                        self.workers.push(WorkerModel::fresh())
                    } else {
                        self.workers
                    },
                    accepted: self.accepted + 1,
                    ..self
                }
            },
            Event::Quit => System { pool: self.pool.shut(), ..self },
            Event::Step { worker, timed_out } => {
                let (pool, moved, _) = self.pool.step(self.workers[worker], timed_out);
                System { pool, workers: self.workers.update(worker, moved), ..self }
            },
            Event::Process { worker, result } => System {
                workers: self.workers.update(worker, self.workers[worker].processed(result)),
                ..self
            },
        }
    }

    /// The system after all the events, in order, from a fresh pool.
    pub open spec fn run(parallelism: nat, events: Seq<Event<T>>) -> Self
        decreases events.len(),
    {
        if events.len() == 0 {
            Self::init(parallelism)
        } else {
            Self::run(parallelism, events.drop_last()).apply(events.last())
        }
    }

    /// Every event was enabled when it happened.
    pub open spec fn valid(parallelism: nat, events: Seq<Event<T>>) -> bool
        decreases events.len(),
    {
        if events.len() == 0 {
            parallelism >= 1
        } else {
            Self::valid(parallelism, events.drop_last()) && Self::run(
                parallelism,
                events.drop_last(),
            ).enabled(events.last())
        }
    }

    /// The counters say what the workers do, and no task is unaccounted for.
    pub open spec fn coherent(self) -> bool {
        &&& self.parallelism >= 1
        &&& self.pool.idle == tally(self.workers, idle_weight())
        &&& self.pool.threads == self.pool.idle + tally(self.workers, active_weight())
        &&& self.pool.threads <= self.parallelism
        &&& self.pool.completed.len() == tally(self.workers, retired_weight())
        &&& self.accepted == self.pool.tasks.len() + tally(self.workers, held_weight())
            + total_results(self.pool.completed)
        &&& self.workers.len() <= self.accepted
        &&& forall|i: int| 0 <= i < self.workers.len() ==> (#[trigger] self.workers[i]).wf()
    }
}

/// Adding an item adds its weight.
pub proof fn lemma_tally_push<A>(items: Seq<A>, weight: spec_fn(A) -> nat, item: A)
    ensures
        tally(items.push(item), weight) == tally(items, weight) + weight(item),
{
    assert(items.push(item).drop_last() =~= items);
}

/// Replacing an item replaces its weight.
pub proof fn lemma_tally_update<A>(items: Seq<A>, weight: spec_fn(A) -> nat, i: int, item: A)
    requires
        0 <= i < items.len(),
    ensures
        tally(items.update(i, item), weight) + weight(items[i]) == tally(items, weight) + weight(
            item,
        ),
    decreases items.len(),
{
    if i == items.len() - 1 {
        assert(items.update(i, item).drop_last() =~= items.drop_last());
    } else {
        lemma_tally_update(items.drop_last(), weight, i, item);
        assert(items.update(i, item).drop_last() =~= items.drop_last().update(i, item));
    }
}

/// No item weighs more than all of them together.
pub proof fn lemma_tally_covers<A>(items: Seq<A>, weight: spec_fn(A) -> nat, i: int)
    requires
        0 <= i < items.len(),
    ensures
        weight(items[i]) <= tally(items, weight),
    decreases items.len(),
{
    if i < items.len() - 1 {
        lemma_tally_covers(items.drop_last(), weight, i);
    }
}

/// Items without weight add up to nothing.
pub proof fn lemma_tally_none<A>(items: Seq<A>, weight: spec_fn(A) -> nat)
    requires
        forall|i: int| 0 <= i < items.len() ==> weight(#[trigger] items[i]) == 0,
    ensures
        tally(items, weight) == 0,
    decreases items.len(),
{
    if items.len() > 0 {
        lemma_tally_none(items.drop_last(), weight);
    }
}

/// In a coherent system every worker may take its next step: what
/// `worker_routine` asks of the record and of the worker holds.
pub proof fn lemma_step_is_hosted<T>(system: System<T>, worker: int)
    requires
        system.coherent(),
        0 <= worker < system.workers.len(),
    ensures
        system.pool.wf(),
        system.pool.hosts(system.workers[worker]),
        system.workers[worker].wf(),
{
    lemma_tally_covers(system.workers, idle_weight(), worker);
    lemma_tally_covers(system.workers, active_weight(), worker);
}

/// A fresh pool is coherent.
pub proof fn lemma_init_is_coherent<T>(parallelism: nat)
    requires
        parallelism >= 1,
    ensures
        System::<T>::init(parallelism).coherent(),
{
}

/// No enabled event breaks coherence.
pub proof fn lemma_apply_keeps_coherent<T>(system: System<T>, event: Event<T>)
    requires
        system.coherent(),
        system.enabled(event),
    ensures
        system.apply(event).coherent(),
{
    let after = system.apply(event);
    match event {
        Event::AddTask { task } => {
            if !system.pool.quit && system.pool.spawns(system.parallelism) {
                let fresh = WorkerModel::<T>::fresh();
                lemma_tally_push(system.workers, idle_weight(), fresh);
                lemma_tally_push(system.workers, active_weight(), fresh);
                lemma_tally_push(system.workers, retired_weight(), fresh);
                lemma_tally_push(system.workers, held_weight(), fresh);
            }
        },
        Event::Quit => {},
        Event::Step { worker, timed_out } => {
            let before = system.workers[worker];
            let (pool, moved, _) = system.pool.step(before, timed_out);
            lemma_step_is_hosted(system, worker);
            lemma_tally_update(system.workers, idle_weight(), worker, moved);
            lemma_tally_update(system.workers, active_weight(), worker, moved);
            lemma_tally_update(system.workers, retired_weight(), worker, moved);
            lemma_tally_update(system.workers, held_weight(), worker, moved);
            if before.phase == WorkerPhase::SignedOff {
                lemma_tally_push(system.pool.completed, entry_weight(), before.done);
            }
        },
        Event::Process { worker, result } => {
            let before = system.workers[worker];
            let moved = before.processed(result);
            lemma_tally_update(system.workers, idle_weight(), worker, moved);
            lemma_tally_update(system.workers, active_weight(), worker, moved);
            lemma_tally_update(system.workers, retired_weight(), worker, moved);
            lemma_tally_update(system.workers, held_weight(), worker, moved);
        },
    }
}

/// Every state that a pool can reach is coherent.
pub proof fn lemma_run_is_coherent<T>(parallelism: nat, events: Seq<Event<T>>)
    requires
        System::<T>::valid(parallelism, events),
    ensures
        System::<T>::run(parallelism, events).coherent(),
    decreases events.len(),
{
    if events.len() == 0 {
        lemma_init_is_coherent::<T>(parallelism);
    } else {
        lemma_run_is_coherent(parallelism, events.drop_last());
        lemma_apply_keeps_coherent(System::run(parallelism, events.drop_last()), events.last());
    }
}

/// At every moment there are no more live workers than the ceiling allows.
pub proof fn lemma_parallelism_is_bounded<T>(parallelism: nat, events: Seq<Event<T>>)
    requires
        System::<T>::valid(parallelism, events),
    ensures
        System::<T>::run(parallelism, events).pool.threads <= parallelism,
{
    lemma_run_is_coherent(parallelism, events);
    lemma_parallelism_is_fixed(parallelism, events);
}

/// At every moment there are no more idle workers than live ones.
pub proof fn lemma_idle_is_bounded<T>(parallelism: nat, events: Seq<Event<T>>)
    requires
        System::<T>::valid(parallelism, events),
    ensures
        System::<T>::run(parallelism, events).pool.idle <= System::<T>::run(
            parallelism,
            events,
        ).pool.threads,
{
    lemma_run_is_coherent(parallelism, events);
}

/// No event changes the ceiling.
pub proof fn lemma_parallelism_is_fixed<T>(parallelism: nat, events: Seq<Event<T>>)
    ensures
        System::<T>::run(parallelism, events).parallelism == parallelism,
    decreases events.len(),
{
    if events.len() > 0 {
        lemma_parallelism_is_fixed(parallelism, events.drop_last());
    }
}

/// Once shutdown was asked for, the pool stays shut: whatever happens
/// later, `add_task` finds the flag set, refuses, and changes nothing.
pub proof fn lemma_quit_is_final<T>(
    parallelism: nat,
    events: Seq<Event<T>>,
    asked: int,
    task: T,
)
    requires
        0 <= asked < events.len(),
        events[asked] is Quit,
    ensures
        System::<T>::run(parallelism, events).pool.quit,
        System::<T>::run(parallelism, events).apply(Event::AddTask { task }) == System::<T>::run(
            parallelism,
            events,
        ),
    decreases events.len(),
{
    if asked < events.len() - 1 {
        lemma_quit_is_final(parallelism, events.drop_last(), asked, task);
    }
}

/// A pool that never accepted a task has no worker, alive or retired, and
/// holds no result: `quit` returns at once, with nothing.
pub proof fn lemma_untouched_pool_is_drained<T>(parallelism: nat, events: Seq<Event<T>>)
    requires
        System::<T>::valid(parallelism, events),
        System::<T>::run(parallelism, events).accepted == 0,
    ensures
        System::<T>::run(parallelism, events).workers.len() == 0,
        System::<T>::run(parallelism, events).pool.threads == 0,
        System::<T>::run(parallelism, events).pool.completed.len() == 0,
{
    lemma_run_is_coherent(parallelism, events);
}

/// Every accepted task is in exactly one place: in the queue, with a worker
/// that has not handed over yet, or among the results handed over.
pub proof fn lemma_tasks_are_accounted_for<T>(parallelism: nat, events: Seq<Event<T>>)
    requires
        System::<T>::valid(parallelism, events),
    ensures
        ({
            let system = System::<T>::run(parallelism, events);
            system.accepted == system.pool.tasks.len() + tally(system.workers, held_weight())
                + total_results(system.pool.completed)
        }),
{
    lemma_run_is_coherent(parallelism, events);
}

/// When no worker is alive, none is between signing off and handing over,
/// and no task was left behind in the queue, the results that `quit`
/// returns are as many as the tasks that were accepted.
pub proof fn lemma_results_match_accepted_tasks<T>(parallelism: nat, events: Seq<Event<T>>)
    requires
        System::<T>::valid(parallelism, events),
        System::<T>::run(parallelism, events).pool.threads == 0,
        System::<T>::run(parallelism, events).pool.tasks.len() == 0,
        forall|i: int|
            0 <= i < System::<T>::run(parallelism, events).workers.len() ==> (
            #[trigger] System::<T>::run(parallelism, events).workers[i]).phase
                != WorkerPhase::SignedOff,
    ensures
        total_results(System::<T>::run(parallelism, events).pool.completed) == System::<T>::run(
            parallelism,
            events,
        ).accepted,
{
    let system = System::<T>::run(parallelism, events);
    lemma_run_is_coherent(parallelism, events);
    assert forall|i: int| 0 <= i < system.workers.len() implies held_weight()(
        #[trigger] system.workers[i],
    ) == 0 by {
        lemma_tally_covers(system.workers, idle_weight(), i);
        lemma_tally_covers(system.workers, active_weight(), i);
        assert(system.workers[i].wf());
    }
    lemma_tally_none(system.workers, held_weight());
}

} // verus!
