//! A barrier for a fixed number of threads, and the work of the threads that
//! meet at it.
//!
//! The barrier's record is kept behind a lock by the embedding program.
//! `Barrier::wait` is the decision of one arriving thread; blocking until the
//! barrier opens, and waking the blocked threads, is done by the caller.

use vstd::prelude::*;

verus! {

/// Numbers in the array of each thread.
pub const ARRAY_SIZE: usize = 6;

/// Threads that meet at the barrier.
pub const THREADS: usize = 5;

/// Rounds that every thread runs.
pub const OUTLOOPS: usize = 10;

/// Passes over its array that a thread makes in each round.
pub const INLOOPS: usize = 1000;

/// What the barrier's lock protects.
#[derive(Clone, Copy, Debug, PartialEq, Eq, Structural)]
pub struct BarrierState {
    /// Threads that are still missing in this cycle.
    pub counter: usize,
    /// Flips each time the barrier opens.
    pub cycle: bool,
    /// The barrier may be waited at.
    pub valid: bool,
}

impl BarrierState {
    /// The state of a barrier at which `counter` threads are missing.
    pub fn new(counter: usize) -> (state: Self)
        ensures
            state == (BarrierState { counter, cycle: true, valid: true }),
    {
        BarrierState { counter, cycle: true, valid: true }
    }

    /// The state after one more thread has arrived at a barrier for
    /// `threshold` threads.
    pub open spec fn arrive(self, threshold: usize) -> Self {
        if self.counter <= 1 {
            BarrierState { counter: threshold, cycle: !self.cycle, ..self }
        } else {
            BarrierState { counter: (self.counter - 1) as usize, ..self }
        }
    }

    /// The state after `n` more threads have arrived.
    pub open spec fn arrivals(self, threshold: usize, n: nat) -> Self
        decreases n,
    {
        if n == 0 {
            self
        } else {
            self.arrivals(threshold, (n - 1) as nat).arrive(threshold)
        }
    }
}

/// What a thread does after it has arrived.
#[derive(Clone, Copy, Debug, PartialEq, Eq, Structural)]
pub enum Arrival {
    /// It was the last one: it wakes all the others and goes on, and its
    /// wait reports `true`.
    Last,
    /// Others are missing: it blocks until the barrier has left `cycle`,
    /// and its wait reports `false`.
    Early { cycle: bool },
}

/// A barrier for `threshold` threads.
#[derive(Debug)]
pub struct Barrier {
    /// Threads that have to arrive before the barrier opens.
    pub threshold: usize,
    /// What the lock protects.
    pub state: BarrierState,
}

impl Barrier {
    /// The barrier may be waited at, and between one and `threshold`
    /// threads are missing.
    pub open spec fn wf(&self) -> bool {
        &&& self.state.valid
        &&& 1 <= self.state.counter <= self.threshold
    }

    /// A barrier at which nobody has arrived yet.
    pub fn new(threshold: usize) -> (barrier: Self)
        ensures
            barrier.threshold == threshold,
            barrier.state == (BarrierState { counter: threshold, cycle: true, valid: true }),
            threshold >= 1 ==> barrier.wf(),
    {
        Barrier { threshold, state: BarrierState::new(threshold) }
    }

    /// One thread arrives. The last of `threshold` threads opens the
    /// barrier for the next cycle; every other one is told which cycle it
    /// has to see pass.
    pub fn wait(&mut self) -> (arrival: Arrival)
        requires
            old(self).wf(),
        ensures
            final(self).wf(),
            final(self).threshold == old(self).threshold,
            final(self).state == old(self).state.arrive(old(self).threshold),
            old(self).state.counter == 1 ==> arrival == Arrival::Last,
            old(self).state.counter > 1 ==> arrival == (Arrival::Early {
                cycle: old(self).state.cycle,
            }),
    {
        let current_cycle = self.state.cycle;
        self.state.counter = self.state.counter - 1;
        if self.state.counter == 0 {
            self.state.cycle = !self.state.cycle;
            self.state.counter = self.threshold;
            Arrival::Last
        } else {
            Arrival::Early { cycle: current_cycle }
        }
    }

    /// The barrier has opened since a thread arrived in `cycle`.
    pub fn passed(&self, cycle: bool) -> (open: bool)
        ensures
            open == (self.state.cycle != cycle),
    {
        self.state.cycle != cycle
    }
}

/// While fewer threads have arrived than are missing, the barrier stays in
/// its cycle and counts them.
pub proof fn lemma_barrier_holds(state: BarrierState, threshold: usize, n: nat)
    requires
        n < state.counter,
    ensures
        state.arrivals(threshold, n) == (BarrierState {
            counter: (state.counter - n) as usize,
            ..state
        }),
    decreases n,
{
    if n > 0 {
        lemma_barrier_holds(state, threshold, (n - 1) as nat);
    }
}

/// When as many threads have arrived as were missing, the barrier has left
/// its cycle and waits for `threshold` threads again: every thread that
/// arrived early sees its cycle pass, and the barrier can be used again.
pub proof fn lemma_barrier_opens(state: BarrierState, threshold: usize)
    requires
        state.counter >= 1,
    ensures
        state.arrivals(threshold, state.counter as nat) == (BarrierState {
            counter: threshold,
            cycle: !state.cycle,
            ..state
        }),
{
    lemma_barrier_holds(state, threshold, (state.counter - 1) as nat);
}

/// The numbers that one thread works on.
#[derive(Clone, Copy, Debug)]
pub struct ThreadArray {
    pub data: [u32; ARRAY_SIZE],
    /// What is added to every number in one pass.
    pub increment: u32,
}

impl ThreadArray {
    /// The numbers one to six, and the increment.
    pub fn new(increment: u32) -> (array: Self)
        ensures
            array.increment == increment,
            forall|i: int| 0 <= i < ARRAY_SIZE ==> array.data[i] == i + 1,
    {
        let mut array = ThreadArray { data: [0;ARRAY_SIZE], increment };
        let mut i: usize = 0;
        while i < ARRAY_SIZE
            invariant
                i <= ARRAY_SIZE,
                array.increment == increment,
                forall|k: int| 0 <= k < i ==> array.data[k] == k + 1,
            decreases ARRAY_SIZE - i,
        {
            array.data[i] = (i + 1) as u32;
            i = i + 1;
        }
        array
    }

    /// Every number can take `passes` more passes without leaving `u32`.
    pub open spec fn has_room(&self, passes: nat) -> bool {
        forall|i: int| 0 <= i < ARRAY_SIZE ==> self.data[i] + passes * self.increment <= u32::MAX
    }

    /// The work of one round: `INLOOPS` passes, each of which adds the
    /// increment to every number.
    pub fn advance(&mut self)
        requires
            old(self).has_room(INLOOPS as nat),
        ensures
            final(self).increment == old(self).increment,
            forall|i: int|
                0 <= i < ARRAY_SIZE ==> final(self).data[i] == old(self).data[i] + INLOOPS
                    * old(self).increment,
    {
        let mut pass: usize = 0;
        while pass < INLOOPS
            invariant
                pass <= INLOOPS,
                old(self).has_room(INLOOPS as nat),
                self.increment == old(self).increment,
                forall|i: int|
                    0 <= i < ARRAY_SIZE ==> self.data[i] == old(self).data[i] + pass
                        * old(self).increment,
            decreases INLOOPS - pass,
        {
            let mut counter: usize = 0;
            while counter < ARRAY_SIZE
                invariant
                    counter <= ARRAY_SIZE,
                    pass < INLOOPS,
                    old(self).has_room(INLOOPS as nat),
                    self.increment == old(self).increment,
                    forall|i: int|
                        0 <= i < counter ==> self.data[i] == old(self).data[i] + (pass + 1)
                            * old(self).increment,
                    forall|i: int|
                        counter <= i < ARRAY_SIZE ==> self.data[i] == old(self).data[i] + pass
                            * old(self).increment,
                decreases ARRAY_SIZE - counter,
            {
                proof {
                    let step = old(self).increment as int;
                    let base = old(self).data[counter as int] as int;
                    assert((pass + 1) * step == pass * step + step) by (nonlinear_arith);
                    assert((pass + 1) * step <= INLOOPS * step) by (nonlinear_arith)
                        requires
                            pass + 1 <= INLOOPS,
                            step >= 0,
                    ;
                    assert(base + INLOOPS * step <= u32::MAX);
                }
                self.data[counter] = self.data[counter] + self.increment;
                counter = counter + 1;
            }
            pass = pass + 1;
        }
    }

    /// The increment grows by one.
    pub fn bump(&mut self)
        requires
            old(self).increment < u32::MAX,
        ensures
            final(self).increment == old(self).increment + 1,
            final(self).data == old(self).data,
    {
        self.increment = self.increment + 1;
    }
}

/// What one thread brings to the barrier.
#[derive(Clone, Copy, Debug)]
pub struct ThreadContext {
    pub array: ThreadArray,
}

impl ThreadContext {
    /// The context of a thread that adds `increment` in each pass.
    pub fn new(increment: u32) -> (context: Self)
        ensures
            context.array.increment == increment,
            forall|i: int| 0 <= i < ARRAY_SIZE ==> context.array.data[i] == i + 1,
    {
        ThreadContext { array: ThreadArray::new(increment) }
    }
}

/// The wait at the barrier that a thread has just come through.
#[derive(Clone, Copy, Debug, PartialEq, Eq, Structural)]
pub enum Passed {
    /// The first wait of a round.
    First,
    /// The second wait of a round; `leader` is what the wait reported.
    Second { leader: bool },
}

/// The contexts after the thread `thread_num` has done its part.
pub open spec fn routine_done(
    before: Seq<ThreadContext>,
    after: Seq<ThreadContext>,
    thread_num: int,
    passed: Passed,
) -> bool {
    &&& after.len() == before.len()
    &&& forall|k: int|
        0 <= k < before.len() ==> (#[trigger] after[k]).array.increment
            == before[k].array.increment + if passed == (Passed::Second { leader: true }) {
            1int
        } else {
            0int
        }
    &&& forall|k: int, i: int|
        0 <= k < before.len() && 0 <= i < ARRAY_SIZE ==> (#[trigger] after[k].array.data[i])
            == before[k].array.data[i] + if passed == Passed::First && k == thread_num {
            INLOOPS * before[k].array.increment
        } else {
            0int
        }
}

/// What thread `thread_num` does when it has come through a wait at the
/// barrier. After the first wait of a round it makes `INLOOPS` passes over
/// its own array. After the second wait the thread that arrived last raises
/// the increment of every thread by one, and the others do nothing.
pub fn thread_routine(contexts: &mut Vec<ThreadContext>, thread_num: usize, passed: Passed)
    requires
        thread_num < old(contexts).len(),
        passed == Passed::First ==> old(contexts)[thread_num as int].array.has_room(
            INLOOPS as nat,
        ),
        passed == (Passed::Second { leader: true }) ==> forall|k: int|
            0 <= k < old(contexts).len() ==> (#[trigger] old(contexts)[k]).array.increment
                < u32::MAX,
    ensures
        routine_done(old(contexts)@, final(contexts)@, thread_num as int, passed),
{
    match passed {
        Passed::First => {
            let mut mine = contexts[thread_num];
            mine.array.advance();
            contexts.set(thread_num, mine);
        },
        Passed::Second { leader: true } => {
            let mut k: usize = 0;
            while k < contexts.len()
                invariant
                    k <= contexts.len(),
                    contexts.len() == old(contexts).len(),
                    forall|j: int|
                        0 <= j < contexts.len() ==> (#[trigger] contexts[j]).array.data
                            == old(contexts)[j].array.data,
                    forall|j: int|
                        0 <= j < k ==> (#[trigger] contexts[j]).array.increment
                            == old(contexts)[j].array.increment + 1,
                    forall|j: int|
                        k <= j < contexts.len() ==> (#[trigger] contexts[j]).array.increment
                            == old(contexts)[j].array.increment,
                    forall|j: int|
                        0 <= j < old(contexts).len() ==> (#[trigger] old(
                            contexts)[j]).array.increment < u32::MAX,
                decreases contexts.len() - k,
            {
                let mut context = contexts[k];
                context.array.bump();
                contexts.set(k, context);
                k = k + 1;
            }
        },
        Passed::Second { leader: false } => {},
    }
}

} // verus!
