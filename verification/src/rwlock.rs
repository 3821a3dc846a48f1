//! A lock that admits many readers or one writer, and a workload for it.
//!
//! The lock's record is kept behind a mutex by the embedding program, with
//! one signal for waiting readers and one for waiting writers. The functions
//! here are the decisions taken with the mutex held: whether a thread gets
//! the lock or has to wait, and whom to wake when the lock is given back.

use crate::chance::random_u64;
use vstd::prelude::*;

verus! {

/// Threads of the workload.
pub const THREADS: usize = 5;

/// Elements that the threads share.
pub const DATASIZE: usize = 15;

/// Turns that every thread takes.
pub const ITERATIONS: usize = 10000;

/// The upper bound, not reached, of the interval between two writes of a
/// thread.
pub const INTERVALS: u64 = 71;

/// Why the lock refused.
#[derive(Clone, Copy, Debug, PartialEq, Eq, Structural)]
pub enum RWLockError {
    /// The data cannot be taken out while the lock is held or waited for.
    InUse,
    /// A reader cannot enter while a writer is active.
    WriteActive,
    /// A writer cannot enter while anyone is active.
    Busy,
}

impl RWLockError {
    /// One line for a log or a terminal.
    pub fn message(&self) -> (text: &'static str)
        ensures
            *self == RWLockError::InUse ==> text@
                == "Cannot take data out of lock, since it's in use."@,
            *self == RWLockError::WriteActive ==> text@ == "Lock in write state."@,
            *self == RWLockError::Busy ==> text@ == "Lock busy"@,
    {
        match self {
            RWLockError::InUse => "Cannot take data out of lock, since it's in use.",
            RWLockError::WriteActive => "Lock in write state.",
            RWLockError::Busy => "Lock busy",
        }
    }
}

/// What the lock's mutex protects.
#[derive(Clone, Copy, Debug, PartialEq, Eq, Structural)]
pub struct RWLockState {
    /// Readers that hold the lock.
    pub r_active: usize,
    /// A writer holds the lock.
    pub w_active: bool,
    /// Readers that wait for the lock.
    pub r_wait: usize,
    /// Writers that wait for the lock.
    pub w_wait: usize,
}

impl RWLockState {
    /// The state of a lock that nobody holds or waits for.
    pub fn new() -> (state: Self)
        ensures
            state == (RWLockState { r_active: 0, w_active: false, r_wait: 0, w_wait: 0 }),
    {
        RWLockState { r_active: 0, w_active: false, r_wait: 0, w_wait: 0 }
    }

    /// A writer is never active together with a reader.
    pub open spec fn wf(self) -> bool {
        self.w_active ==> self.r_active == 0
    }

    /// Nobody holds the lock.
    pub open spec fn free(self) -> bool {
        !self.w_active && self.r_active == 0
    }

    /// Nobody holds the lock or waits for it.
    pub open spec fn idle(self) -> bool {
        self.free() && self.r_wait == 0 && self.w_wait == 0
    }

    /// The state when a waiting reader has been woken.
    pub open spec fn reader_woken(self, resumed: bool) -> Self {
        if resumed {
            RWLockState { r_wait: (self.r_wait - 1) as usize, ..self }
        } else {
            self
        }
    }

    /// The state when a waiting writer has been woken.
    pub open spec fn writer_woken(self, resumed: bool) -> Self {
        if resumed {
            RWLockState { w_wait: (self.w_wait - 1) as usize, ..self }
        } else {
            self
        }
    }

    /// The state after a reader has asked for the lock.
    pub open spec fn reader_asked(self, resumed: bool) -> Self {
        let woken = self.reader_woken(resumed);
        if woken.w_active {
            RWLockState { r_wait: (woken.r_wait + 1) as usize, ..woken }
        } else {
            RWLockState { r_active: (woken.r_active + 1) as usize, ..woken }
        }
    }

    /// The state after a writer has asked for the lock.
    pub open spec fn writer_asked(self, resumed: bool) -> Self {
        let woken = self.writer_woken(resumed);
        if woken.free() {
            RWLockState { w_active: true, ..woken }
        } else {
            RWLockState { w_wait: (woken.w_wait + 1) as usize, ..woken }
        }
    }

    /// The state after a reader has given the lock back.
    pub open spec fn reader_left(self) -> Self {
        RWLockState { r_active: (self.r_active - 1) as usize, ..self }
    }

    /// The state after the writer has given the lock back.
    pub open spec fn writer_left(self) -> Self {
        RWLockState { w_active: false, ..self }
    }
}

/// Whom to wake when the lock was given back.
#[derive(Clone, Copy, Debug, PartialEq, Eq, Structural)]
pub enum Wake {
    /// Nobody.
    Nobody,
    /// One thread that waits on the writers' signal.
    OneWriter,
    /// Every thread that waits on the readers' signal.
    AllReaders,
}

/// The evidence that its holder may read.
#[derive(Debug)]
pub struct RWLockReadGuard {
    held: (),
}

impl RWLockReadGuard {
    pub(crate) fn new() -> Self {
        RWLockReadGuard { held: () }
    }
}

/// The evidence that its holder may read and write.
#[derive(Debug)]
pub struct RWLockWriteGuard {
    held: (),
}

impl RWLockWriteGuard {
    pub(crate) fn new() -> Self {
        RWLockWriteGuard { held: () }
    }
}

/// A value, and the record of who may look at it.
#[derive(Debug)]
pub struct RWLock<T> {
    pub state: RWLockState,
    pub data: T,
}

impl<T> RWLock<T> {
    /// A lock around `d` that nobody holds or waits for.
    pub fn new(d: T) -> (lock: Self)
        ensures
            lock.data == d,
            lock.state.idle(),
            lock.state.wf(),
    {
        RWLock { state: RWLockState::new(), data: d }
    }

    /// Takes the value out, unless somebody holds the lock or waits for it.
    pub fn into_inner(self) -> (data: Result<T, RWLockError>)
        ensures
            self.state.idle() ==> data == Ok::<T, RWLockError>(self.data),
            !self.state.idle() ==> data == Err::<T, RWLockError>(RWLockError::InUse),
    {
        if !self.state.w_active && self.state.r_active == 0 && self.state.w_wait == 0
            && self.state.r_wait == 0 {
            Ok(self.data)
        } else {
            Err(RWLockError::InUse)
        }
    }

    /// A reader asks for the lock. `resumed` says that it was counted as
    /// waiting and has been woken. While a writer is active the reader is
    /// counted as waiting and gets nothing: the caller waits on the readers'
    /// signal and asks again, with `resumed` set.
    pub fn read(&mut self, resumed: bool) -> (guard: Option<RWLockReadGuard>)
        requires
            old(self).state.wf(),
            resumed ==> old(self).state.r_wait >= 1,
            !resumed ==> old(self).state.r_wait < usize::MAX,
            old(self).state.r_active < usize::MAX,
        ensures
            final(self).state.wf(),
            final(self).data == old(self).data,
            final(self).state == old(self).state.reader_asked(resumed),
            guard is Some <==> !old(self).state.w_active,
    {
        if resumed {
            self.state.r_wait = self.state.r_wait - 1;
        }
        if self.state.w_active {
            self.state.r_wait = self.state.r_wait + 1;
            None
        } else {
            self.state.r_active = self.state.r_active + 1;
            Some(RWLockReadGuard::new())
        }
    }

    /// A reader asks for the lock and does not wait for it.
    pub fn try_read(&mut self) -> (guard: Result<RWLockReadGuard, RWLockError>)
        requires
            old(self).state.wf(),
            old(self).state.r_active < usize::MAX,
        ensures
            final(self).state.wf(),
            final(self).data == old(self).data,
            guard is Ok <==> !old(self).state.w_active,
            guard matches Err(e) ==> e == RWLockError::WriteActive,
            guard is Err ==> final(self).state == old(self).state,
            guard is Ok ==> final(self).state == old(self).state.reader_asked(false),
    {
        if self.state.w_active {
            Err(RWLockError::WriteActive)
        } else {
            self.state.r_active = self.state.r_active + 1;
            Ok(RWLockReadGuard::new())
        }
    }

    /// A writer asks for the lock. `resumed` says that it was counted as
    /// waiting and has been woken. While anyone is active the writer is
    /// counted as waiting and gets nothing: the caller waits on the writers'
    /// signal and asks again, with `resumed` set.
    pub fn write(&mut self, resumed: bool) -> (guard: Option<RWLockWriteGuard>)
        requires
            old(self).state.wf(),
            resumed ==> old(self).state.w_wait >= 1,
            !resumed ==> old(self).state.w_wait < usize::MAX,
        ensures
            final(self).state.wf(),
            final(self).data == old(self).data,
            final(self).state == old(self).state.writer_asked(resumed),
            guard is Some <==> old(self).state.free(),
    {
        if resumed {
            self.state.w_wait = self.state.w_wait - 1;
        }
        if self.state.r_active > 0 || self.state.w_active {
            self.state.w_wait = self.state.w_wait + 1;
            None
        } else {
            self.state.w_active = true;
            Some(RWLockWriteGuard::new())
        }
    }

    /// A writer asks for the lock and does not wait for it.
    pub fn try_write(&mut self) -> (guard: Result<RWLockWriteGuard, RWLockError>)
        requires
            old(self).state.wf(),
        ensures
            final(self).state.wf(),
            final(self).data == old(self).data,
            guard is Ok <==> old(self).state.free(),
            guard matches Err(e) ==> e == RWLockError::Busy && final(self).state == old(self).state,
            guard is Ok ==> final(self).state == old(self).state.writer_asked(false),
    {
        if self.state.r_active > 0 || self.state.w_active {
            Err(RWLockError::Busy)
        } else {
            self.state.w_active = true;
            Ok(RWLockWriteGuard::new())
        }
    }

    /// A reader gives the lock back. When it was the last reader and a
    /// writer waits, one writer is to be woken.
    pub fn release_read(&mut self, guard: RWLockReadGuard) -> (wake: Wake)
        requires
            old(self).state.wf(),
            old(self).state.r_active >= 1,
        ensures
            final(self).state.wf(),
            final(self).data == old(self).data,
            final(self).state == old(self).state.reader_left(),
            wake == if old(self).state.r_active == 1 && old(self).state.w_wait > 0 {
                Wake::OneWriter
            } else {
                Wake::Nobody
            },
    {
        self.state.r_active = self.state.r_active - 1;
        if self.state.r_active == 0 && self.state.w_wait > 0 {
            Wake::OneWriter
        } else {
            Wake::Nobody
        }
    }

    /// The writer gives the lock back. Waiting readers go first, all of
    /// them; if there is none, one waiting writer.
    pub fn release_write(&mut self, guard: RWLockWriteGuard) -> (wake: Wake)
        requires
            old(self).state.wf(),
        ensures
            final(self).state.wf(),
            final(self).data == old(self).data,
            final(self).state == old(self).state.writer_left(),
            wake == if old(self).state.r_wait > 0 {
                Wake::AllReaders
            } else if old(self).state.w_wait > 0 {
                Wake::OneWriter
            } else {
                Wake::Nobody
            },
    {
        self.state.w_active = false;
        if self.state.r_wait > 0 {
            Wake::AllReaders
        } else if self.state.w_wait > 0 {
            Wake::OneWriter
        } else {
            Wake::Nobody
        }
    }

    /// The value, for a holder of the lock.
    pub fn get(&self, guard: &RWLockReadGuard) -> (data: &T)
        ensures
            *data == self.data,
    {
        &self.data
    }

    /// The value, for the writer.
    pub fn current(&self, guard: &RWLockWriteGuard) -> (data: &T)
        ensures
            *data == self.data,
    {
        &self.data
    }

    /// Puts `data` in the place of the value, for the writer.
    pub fn set(&mut self, guard: &RWLockWriteGuard, data: T)
        ensures
            final(self).data == data,
            final(self).state == old(self).state,
    {
        self.data = data;
    }
}

/// What one thread of the workload counts.
#[derive(Clone, Copy, Debug, PartialEq, Eq, Structural)]
pub struct ThreadData {
    pub thread_id: usize,
    /// Turns in which it wrote.
    pub updates: usize,
    /// Turns in which it read.
    pub reads: usize,
    /// It writes in every turn whose number is a multiple of this.
    pub interval: usize,
}

impl ThreadData {
    /// The counters of thread `id`, with the interval taken from `draw`.
    pub fn with_draw(id: usize, draw: u64) -> (thread_data: Self)
        ensures
            thread_data == (ThreadData {
                thread_id: id,
                updates: 0,
                reads: 0,
                interval: (draw % INTERVALS) as usize,
            }),
    {
        ThreadData { thread_id: id, updates: 0, reads: 0, interval: (draw % INTERVALS) as usize }
    }

    /// The counters of thread `id`, with an interval drawn at random.
    pub fn new(id: usize) -> (thread_data: Self)
        ensures
            thread_data.thread_id == id,
            thread_data.updates == 0,
            thread_data.reads == 0,
            thread_data.interval < INTERVALS,
    {
        ThreadData::with_draw(id, random_u64())
    }

    /// A write turn on `element`, for the holder of its lock: the element
    /// gets the thread's mark, and the write is counted on both sides.
    pub fn write_turn(&mut self, element: &DataElement) -> (written: DataElement)
        requires
            old(self).updates < usize::MAX,
            element.updates < usize::MAX,
        ensures
            *final(self) == (ThreadData {
                updates: (old(self).updates + 1) as usize,
                ..*old(self)
            }),
            written == (DataElement {
                data: old(self).thread_id,
                updates: (element.updates + 1) as usize,
            }),
    {
        self.updates = self.updates + 1;
        DataElement { data: self.thread_id, updates: element.updates + 1 }
    }

    /// A read turn on `element`, for a holder of its lock: the read is
    /// counted. Returns whether the element bears the thread's own mark.
    pub fn read_turn(&mut self, element: &DataElement) -> (repeat: bool)
        requires
            old(self).reads < usize::MAX,
        ensures
            *final(self) == (ThreadData { reads: (old(self).reads + 1) as usize, ..*old(self) }),
            repeat == (element.data == old(self).thread_id),
    {
        self.reads = self.reads + 1;
        element.data == self.thread_id
    }

    /// The thread writes in turn number `iteration`.
    pub fn writes_at(&self, iteration: usize) -> (writes: bool)
        requires
            self.interval > 0,
        ensures
            writes == (iteration % self.interval == 0),
    {
        iteration % self.interval == 0
    }
}

/// What a lock of the workload protects.
#[derive(Clone, Copy, Debug, PartialEq, Eq, Structural)]
pub struct DataElement {
    /// The thread that wrote last.
    pub data: usize,
    /// How often the element was written.
    pub updates: usize,
}

/// One shared element of the workload.
#[derive(Debug)]
pub struct Data {
    pub element: RWLock<DataElement>,
}

impl Data {
    /// An element that was never written, behind a lock that nobody holds.
    pub fn new() -> (data: Self)
        ensures
            data.element.data == (DataElement { data: 0, updates: 0 }),
            data.element.state.idle(),
    {
        Data { element: RWLock::new(DataElement { data: 0, updates: 0 }) }
    }
}

/// The thread and the element after one turn, and whether a reading thread
/// found its own mark.
pub open spec fn turn(thread_data: ThreadData, element: DataElement, iteration: int) -> (
    ThreadData,
    DataElement,
    bool,
) {
    if iteration % (thread_data.interval as int) == 0 {
        (
            ThreadData { updates: (thread_data.updates + 1) as usize, ..thread_data },
            DataElement { data: thread_data.thread_id, updates: (element.updates + 1) as usize },
            false,
        )
    } else {
        (
            ThreadData { reads: (thread_data.reads + 1) as usize, ..thread_data },
            element,
            element.data == thread_data.thread_id,
        )
    }
}

/// One turn of a thread on one element, with the lock taken and given back
/// around it: a write of the thread's mark in every turn whose number is a
/// multiple of the thread's interval, a read in every other turn. Returns
/// whether a read found the thread's own mark.
pub fn worker_turn(data: &mut Data, thread_data: &mut ThreadData, iteration: usize) -> (repeat:
    bool)
    requires
        old(data).element.state.free(),
        old(thread_data).interval > 0,
        old(thread_data).updates < usize::MAX,
        old(thread_data).reads < usize::MAX,
        old(data).element.data.updates < usize::MAX,
    ensures
        final(data).element.state == old(data).element.state,
        (*final(thread_data), final(data).element.data, repeat) == turn(
            *old(thread_data),
            old(data).element.data,
            iteration as int,
        ),
{
    if thread_data.writes_at(iteration) {
        match data.element.try_write() {
            Ok(guard) => {
                let written = thread_data.write_turn(data.element.current(&guard));
                data.element.set(&guard, written);
                data.element.release_write(guard);
            },
            Err(_) => {},
        }
        false
    } else {
        match data.element.try_read() {
            Ok(guard) => {
                let repeat = thread_data.read_turn(data.element.get(&guard));
                data.element.release_read(guard);
                repeat
            },
            Err(_) => false,
        }
    }
}

/// The workload of one thread as a mathematical value: its counters, the
/// elements, and the reads that found the thread's own mark.
pub struct Workload {
    pub thread_data: ThreadData,
    pub elements: Seq<DataElement>,
    pub repeats: nat,
}

impl Workload {
    /// The workload after the first `turns` turns, which go round the
    /// elements in order.
    pub open spec fn after(self, turns: nat) -> Workload
        decreases turns,
    {
        if turns == 0 {
            self
        } else {
            let before = self.after((turns - 1) as nat);
            let index = (turns - 1) % (self.elements.len() as int);
            let (thread_data, element, repeat) = turn(
                before.thread_data,
                before.elements[index],
                turns - 1,
            );
            Workload {
                thread_data,
                elements: before.elements.update(index, element),
                repeats: if repeat {
                    before.repeats + 1
                } else {
                    before.repeats
                },
            }
        }
    }
}

/// The elements that the locks protect.
pub open spec fn elements_of(data_vec: Seq<Data>) -> Seq<DataElement> {
    data_vec.map_values(|data: Data| data.element.data)
}

/// The states of the locks.
pub open spec fn states_of(data_vec: Seq<Data>) -> Seq<RWLockState> {
    data_vec.map_values(|data: Data| data.element.state)
}

/// Turns of which the first `turns` hold a write.
pub open spec fn writes_within(turns: nat, interval: int) -> nat
    decreases turns,
{
    if turns == 0 {
        0
    } else {
        writes_within((turns - 1) as nat, interval) + if (turns - 1) % interval == 0 {
            1nat
        } else {
            0nat
        }
    }
}

/// Every turn is a write or a read, and the writes are the turns whose
/// number is a multiple of the interval.
pub proof fn lemma_turns_are_counted(workload: Workload, turns: nat)
    requires
        workload.thread_data.interval > 0,
        workload.elements.len() > 0,
        workload.thread_data.updates + turns <= usize::MAX,
        workload.thread_data.reads + turns <= usize::MAX,
    ensures
        workload.after(turns).elements.len() == workload.elements.len(),
        workload.after(turns).thread_data.thread_id == workload.thread_data.thread_id,
        workload.after(turns).thread_data.interval == workload.thread_data.interval,
        workload.after(turns).thread_data.updates == workload.thread_data.updates + writes_within(
            turns,
            workload.thread_data.interval as int,
        ),
        workload.after(turns).thread_data.reads == workload.thread_data.reads + turns
            - writes_within(turns, workload.thread_data.interval as int),
        writes_within(turns, workload.thread_data.interval as int) <= turns,
    decreases turns,
{
    if turns > 0 {
        lemma_turns_are_counted(workload, (turns - 1) as nat);
    }
}

/// Going round `count` places, the place after the last one is the first.
pub proof fn lemma_next_place(turn: int, count: int)
    requires
        turn >= 0,
        count > 0,
    ensures
        (turn + 1) % count == if turn % count == count - 1 {
            0
        } else {
            turn % count + 1
        },
{
    let rounds = turn / count;
    let place = turn % count;
    vstd::arithmetic::div_mod::lemma_fundamental_div_mod(turn, count);
    assert(count * rounds == rounds * count) by (nonlinear_arith);
    if place == count - 1 {
        assert(turn + 1 == (rounds + 1) * count + 0) by (nonlinear_arith)
            requires
                turn == rounds * count + place,
                place == count - 1,
        ;
        vstd::arithmetic::div_mod::lemma_fundamental_div_mod_converse(
            turn + 1,
            count,
            rounds + 1,
            0,
        );
    } else {
        vstd::arithmetic::div_mod::lemma_fundamental_div_mod_converse(
            turn + 1,
            count,
            rounds,
            place + 1,
        );
    }
}

/// All the turns of one thread, one after the other, with nobody else at
/// the locks. Returns the thread's counters and the number of reads that
/// found the thread's own mark.
pub fn worker_func(data_vec: &mut Vec<Data>, thread_data: ThreadData) -> (counted: (
    ThreadData,
    usize,
))
    requires
        old(data_vec).len() > 0,
        thread_data.interval > 0,
        thread_data.updates + ITERATIONS <= usize::MAX,
        thread_data.reads + ITERATIONS <= usize::MAX,
        forall|i: int|
            0 <= i < old(data_vec).len() ==> (#[trigger] old(data_vec)[i]).element.state.free()
                && old(data_vec)[i].element.data.updates + ITERATIONS <= usize::MAX,
    ensures
        final(data_vec).len() == old(data_vec).len(),
        states_of(final(data_vec)@) == states_of(old(data_vec)@),
        ({
            let workload = Workload {
                thread_data,
                elements: elements_of(old(data_vec)@),
                repeats: 0,
            }.after(ITERATIONS as nat);
            &&& counted.0 == workload.thread_data
            &&& counted.1 == workload.repeats
            &&& elements_of(final(data_vec)@) == workload.elements
        }),
{
    let mut thread_data = thread_data;
    let mut index: usize = 0;
    let mut repeats: usize = 0;
    let mut iteration: usize = 0;
    let ghost start = Workload { thread_data, elements: elements_of(data_vec@), repeats: 0 };
    while iteration < ITERATIONS
        invariant
            iteration <= ITERATIONS,
            data_vec.len() == old(data_vec).len(),
            data_vec.len() > 0,
            index == iteration % data_vec.len(),
            start.thread_data.interval > 0,
            start.elements == elements_of(old(data_vec)@),
            start.thread_data.updates + ITERATIONS <= usize::MAX,
            start.thread_data.reads + ITERATIONS <= usize::MAX,
            states_of(data_vec@) == states_of(old(data_vec)@),
            forall|i: int|
                0 <= i < old(data_vec).len() ==> (#[trigger] old(data_vec)[i]).element.state.free()
                    && old(data_vec)[i].element.data.updates + ITERATIONS <= usize::MAX,
            forall|i: int|
                0 <= i < data_vec.len() ==> (#[trigger] data_vec[i]).element.data.updates
                    <= old(data_vec)[i].element.data.updates + iteration,
            thread_data == start.after(iteration as nat).thread_data,
            repeats == start.after(iteration as nat).repeats,
            repeats <= iteration,
            elements_of(data_vec@) == start.after(iteration as nat).elements,
        decreases ITERATIONS - iteration,
    {
        proof {
            lemma_turns_are_counted(start, iteration as nat);
            assert(states_of(data_vec@)[index as int] == states_of(old(data_vec)@)[index as int]);
            assert(elements_of(data_vec@)[index as int] == data_vec[index as int].element.data);
        }
        let ghost before = data_vec@;
        let mut data = data_vec.remove(index);
        let repeat = worker_turn(&mut data, &mut thread_data, iteration);
        data_vec.insert(index, data);
        if repeat {
            repeats = repeats + 1;
        }
        proof {
            assert(data_vec@ =~= before.update(index as int, data));
            assert(states_of(data_vec@) =~= states_of(old(data_vec)@));
            assert(elements_of(data_vec@) =~= elements_of(before).update(
                index as int,
                data.element.data,
            ));
        }
        iteration = iteration + 1;
        index = index + 1;
        if index >= data_vec.len() {
            index = 0;
        }
        proof {
            lemma_next_place(iteration - 1, data_vec.len() as int);
        }
    }
    (thread_data, repeats)
}

} // verus!
