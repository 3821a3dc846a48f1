use syncprim::rwlock::{
    worker_func, worker_turn, Data, DataElement, RWLock, RWLockError, RWLockState, ThreadData,
    Wake, DATASIZE, ITERATIONS,
};

#[test]
fn new_lock_state_is_idle() {
    assert_eq!(
        RWLockState::new(),
        RWLockState { r_active: 0, w_active: false, r_wait: 0, w_wait: 0 }
    );
}

#[test]
fn into_inner_gives_the_value_of_an_idle_lock() {
    let lock = RWLock::new(17u32);
    assert_eq!(lock.into_inner(), Ok(17));
}

#[test]
fn into_inner_refuses_a_lock_in_use() {
    let mut lock = RWLock::new(17u32);
    let _guard = lock.try_read().unwrap();
    let refused = lock.into_inner();
    assert_eq!(refused, Err(RWLockError::InUse));
    assert_eq!(
        refused.unwrap_err().message(),
        "Cannot take data out of lock, since it's in use."
    );
}

#[test]
fn many_readers_share_the_lock() {
    let mut lock = RWLock::new(1u8);
    let first = lock.try_read().unwrap();
    let second = lock.read(false).unwrap();
    assert_eq!(lock.state.r_active, 2);
    assert_eq!(*lock.get(&first), 1);
    let refused = lock.try_write().unwrap_err();
    assert_eq!(refused, RWLockError::Busy);
    assert_eq!(refused.message(), "Lock busy");
    assert_eq!(lock.release_read(first), Wake::Nobody);
    assert_eq!(lock.release_read(second), Wake::Nobody);
    assert_eq!(lock.state, RWLockState::new());
}

#[test]
fn a_writer_keeps_everyone_out() {
    let mut lock = RWLock::new(1u8);
    let guard = lock.try_write().unwrap();
    assert!(lock.state.w_active);
    let refused = lock.try_read().unwrap_err();
    assert_eq!(refused, RWLockError::WriteActive);
    assert_eq!(refused.message(), "Lock in write state.");
    assert_eq!(lock.try_write().unwrap_err(), RWLockError::Busy);
    lock.set(&guard, 2);
    assert_eq!(lock.release_write(guard), Wake::Nobody);
    assert_eq!(lock.data, 2);
    assert!(lock.try_read().is_ok());
}

#[test]
fn waiting_readers_are_woken_before_waiting_writers() {
    let mut lock = RWLock::new(());
    let writer = lock.write(false).unwrap();
    assert!(lock.read(false).is_none());
    assert!(lock.read(false).is_none());
    assert!(lock.write(false).is_none());
    assert_eq!(lock.state, RWLockState { r_active: 0, w_active: true, r_wait: 2, w_wait: 1 });
    // A reader that is woken too early goes back to waiting.
    assert!(lock.read(true).is_none());
    assert_eq!(lock.state.r_wait, 2);
    assert_eq!(lock.release_write(writer), Wake::AllReaders);
    let first = lock.read(true).unwrap();
    let second = lock.read(true).unwrap();
    assert_eq!(lock.state, RWLockState { r_active: 2, w_active: false, r_wait: 0, w_wait: 1 });
    assert!(lock.write(true).is_none());
    assert_eq!(lock.state.w_wait, 1);
    assert_eq!(lock.release_read(first), Wake::Nobody);
    assert_eq!(lock.release_read(second), Wake::OneWriter);
    let writer = lock.write(true).unwrap();
    assert_eq!(lock.state, RWLockState { r_active: 0, w_active: true, r_wait: 0, w_wait: 0 });
    assert_eq!(lock.release_write(writer), Wake::Nobody);
}

#[test]
fn a_waiting_writer_is_woken_when_no_reader_waits() {
    let mut lock = RWLock::new(());
    let writer = lock.write(false).unwrap();
    assert!(lock.write(false).is_none());
    assert_eq!(lock.release_write(writer), Wake::OneWriter);
}

#[test]
fn thread_data_takes_its_interval_from_the_draw() {
    let thread_data = ThreadData::with_draw(3, 150);
    assert_eq!(thread_data, ThreadData { thread_id: 3, updates: 0, reads: 0, interval: 8 });
    assert_eq!(ThreadData::with_draw(3, 71).interval, 0);
    assert_eq!(ThreadData::with_draw(3, u64::MAX).interval, (u64::MAX % 71) as usize);
}

#[test]
fn thread_data_draws_an_interval_below_seventy_one() {
    for id in 0..200 {
        let thread_data = ThreadData::new(id);
        assert_eq!(thread_data.thread_id, id);
        assert_eq!(thread_data.updates, 0);
        assert_eq!(thread_data.reads, 0);
        assert!(thread_data.interval < 71);
    }
}

#[test]
fn thread_writes_in_multiples_of_its_interval() {
    let thread_data = ThreadData::with_draw(1, 3);
    assert!(thread_data.writes_at(0));
    assert!(!thread_data.writes_at(1));
    assert!(!thread_data.writes_at(2));
    assert!(thread_data.writes_at(3));
    assert!(thread_data.writes_at(9999));
}

#[test]
fn new_data_was_never_written() {
    let data = Data::new();
    assert_eq!(data.element.data, DataElement { data: 0, updates: 0 });
    assert_eq!(data.element.state, RWLockState::new());
}

#[test]
fn a_turn_writes_or_reads() {
    let mut data = Data::new();
    let mut thread_data = ThreadData::with_draw(4, 2);
    assert!(!worker_turn(&mut data, &mut thread_data, 0));
    assert_eq!(data.element.data, DataElement { data: 4, updates: 1 });
    assert_eq!((thread_data.updates, thread_data.reads), (1, 0));
    assert!(worker_turn(&mut data, &mut thread_data, 1));
    assert_eq!(data.element.data, DataElement { data: 4, updates: 1 });
    assert_eq!((thread_data.updates, thread_data.reads), (1, 1));
    data.element.data.data = 9;
    assert!(!worker_turn(&mut data, &mut thread_data, 3));
    assert_eq!((thread_data.updates, thread_data.reads), (1, 2));
    assert_eq!(data.element.state, RWLockState::new());
}

#[test]
fn all_turns_of_one_thread() {
    let mut data_vec: Vec<Data> = (0..DATASIZE).map(|_| Data::new()).collect();
    let (thread_data, repeats) = worker_func(&mut data_vec, ThreadData::with_draw(2, 4));
    assert_eq!(thread_data.thread_id, 2);
    assert_eq!(thread_data.interval, 4);
    assert_eq!(thread_data.updates, 2500);
    assert_eq!(thread_data.reads, 7500);
    assert_eq!(thread_data.updates + thread_data.reads, ITERATIONS);
    let written: usize = data_vec.iter().map(|d| d.element.data.updates).sum();
    assert_eq!(written, 2500);
    assert!(data_vec.iter().all(|d| d.element.data.data == 2));
    assert!(data_vec.iter().all(|d| d.element.state == RWLockState::new()));
    // Turn 0 marks element 0; the turns 4, 8, ..., 56 mark the other
    // fourteen. From turn 57 on every read finds the mark; before, a read
    // of turn i finds it if the element was marked in an earlier turn.
    let mut marked = [false; 15];
    let mut expected = 0;
    for turn in 0..ITERATIONS {
        if turn % 4 == 0 {
            marked[turn % 15] = true;
        } else if marked[turn % 15] {
            expected += 1;
        }
    }
    assert_eq!(repeats, expected);
}

#[test]
fn a_thread_that_writes_every_turn_never_reads() {
    let mut data_vec: Vec<Data> = (0..3).map(|_| Data::new()).collect();
    let (thread_data, repeats) = worker_func(&mut data_vec, ThreadData::with_draw(1, 1));
    assert_eq!((thread_data.updates, thread_data.reads, repeats), (10000, 0, 0));
    let updates: Vec<usize> = data_vec.iter().map(|d| d.element.data.updates).collect();
    assert_eq!(updates, vec![3334, 3333, 3333]);
}

#[test]
fn turns_are_counted_on_both_sides() {
    let mut thread_data = ThreadData::with_draw(6, 5);
    let written = thread_data.write_turn(&DataElement { data: 1, updates: 8 });
    assert_eq!(written, DataElement { data: 6, updates: 9 });
    assert_eq!(thread_data, ThreadData { thread_id: 6, updates: 1, reads: 0, interval: 5 });
    assert!(thread_data.read_turn(&written));
    assert!(!thread_data.read_turn(&DataElement { data: 1, updates: 8 }));
    assert_eq!(thread_data, ThreadData { thread_id: 6, updates: 1, reads: 2, interval: 5 });
}

#[test]
fn the_writer_sees_what_it_wrote() {
    let mut lock = RWLock::new(3u8);
    let guard = lock.try_write().unwrap();
    assert_eq!(*lock.current(&guard), 3);
    lock.set(&guard, 4);
    assert_eq!(*lock.current(&guard), 4);
    lock.release_write(guard);
}
