use syncprim::barrier::{
    thread_routine, Arrival, Barrier, BarrierState, Passed, ThreadArray, ThreadContext,
    ARRAY_SIZE, INLOOPS, OUTLOOPS, THREADS,
};

#[test]
fn barrier_state_starts_in_the_first_cycle() {
    let state = BarrierState::new(3);
    assert_eq!(state, BarrierState { counter: 3, cycle: true, valid: true });
}

#[test]
fn barrier_opens_for_the_last_thread() {
    let mut barrier = Barrier::new(3);
    assert_eq!(barrier.threshold, 3);
    assert_eq!(barrier.wait(), Arrival::Early { cycle: true });
    assert_eq!(barrier.state.counter, 2);
    assert!(!barrier.passed(true));
    assert_eq!(barrier.wait(), Arrival::Early { cycle: true });
    assert!(!barrier.passed(true));
    assert_eq!(barrier.wait(), Arrival::Last);
    assert!(barrier.passed(true));
    assert_eq!(barrier.state, BarrierState { counter: 3, cycle: false, valid: true });
}

#[test]
fn barrier_can_be_used_again() {
    let mut barrier = Barrier::new(2);
    assert_eq!(barrier.wait(), Arrival::Early { cycle: true });
    assert_eq!(barrier.wait(), Arrival::Last);
    assert_eq!(barrier.wait(), Arrival::Early { cycle: false });
    assert!(!barrier.passed(false));
    assert_eq!(barrier.wait(), Arrival::Last);
    assert!(barrier.passed(false));
    assert_eq!(barrier.state.counter, 2);
}

#[test]
fn barrier_for_one_thread_never_blocks() {
    let mut barrier = Barrier::new(1);
    assert_eq!(barrier.wait(), Arrival::Last);
    assert_eq!(barrier.wait(), Arrival::Last);
    assert!(barrier.state.cycle);
}

#[test]
fn thread_array_starts_with_one_to_six() {
    let array = ThreadArray::new(7);
    assert_eq!(array.data, [1, 2, 3, 4, 5, 6]);
    assert_eq!(array.increment, 7);
    assert_eq!(ARRAY_SIZE, 6);
}

#[test]
fn thread_array_advance_adds_a_thousand_increments() {
    let mut array = ThreadArray::new(3);
    array.advance();
    assert_eq!(array.data, [3001, 3002, 3003, 3004, 3005, 3006]);
    assert_eq!(array.increment, 3);
    array.bump();
    assert_eq!(array.increment, 4);
    array.advance();
    assert_eq!(array.data, [7001, 7002, 7003, 7004, 7005, 7006]);
}

#[test]
fn thread_routine_after_the_first_wait_works_on_its_own_array() {
    let mut contexts: Vec<ThreadContext> = (0..3).map(ThreadContext::new).collect();
    thread_routine(&mut contexts, 1, Passed::First);
    assert_eq!(contexts[0].array.data, [1, 2, 3, 4, 5, 6]);
    assert_eq!(contexts[1].array.data, [1001, 1002, 1003, 1004, 1005, 1006]);
    assert_eq!(contexts[2].array.data, [1, 2, 3, 4, 5, 6]);
    let increments: Vec<u32> = contexts.iter().map(|c| c.array.increment).collect();
    assert_eq!(increments, vec![0, 1, 2]);
}

#[test]
fn thread_routine_of_a_follower_does_nothing_after_the_second_wait() {
    let mut contexts: Vec<ThreadContext> = (0..3).map(ThreadContext::new).collect();
    thread_routine(&mut contexts, 1, Passed::Second { leader: false });
    for (i, context) in contexts.iter().enumerate() {
        assert_eq!(context.array.data, [1, 2, 3, 4, 5, 6]);
        assert_eq!(context.array.increment, i as u32);
    }
}

#[test]
fn thread_routine_of_the_leader_raises_every_increment() {
    let mut contexts: Vec<ThreadContext> = (0..3).map(ThreadContext::new).collect();
    thread_routine(&mut contexts, 2, Passed::Second { leader: true });
    let increments: Vec<u32> = contexts.iter().map(|c| c.array.increment).collect();
    assert_eq!(increments, vec![1, 2, 3]);
    assert!(contexts.iter().all(|c| c.array.data == [1, 2, 3, 4, 5, 6]));
}

#[test]
fn all_rounds_of_all_threads() {
    let mut barrier = Barrier::new(THREADS);
    let mut contexts: Vec<ThreadContext> =
        (0..THREADS).map(|i| ThreadContext::new(i as u32)).collect();
    for _ in 0..OUTLOOPS {
        for _ in 0..THREADS {
            barrier.wait();
        }
        for thread_num in 0..THREADS {
            thread_routine(&mut contexts, thread_num, Passed::First);
        }
        for thread_num in 0..THREADS {
            let leader = barrier.wait() == Arrival::Last;
            assert_eq!(leader, thread_num == THREADS - 1);
            thread_routine(&mut contexts, thread_num, Passed::Second { leader });
        }
    }
    // Thread i adds i, i + 1, ..., i + 9, a thousand times each.
    for (i, context) in contexts.iter().enumerate() {
        assert_eq!(context.array.increment, i as u32 + OUTLOOPS as u32);
        let added = (10 * i as u32 + 45) * INLOOPS as u32;
        for (k, number) in context.array.data.iter().enumerate() {
            assert_eq!(*number, k as u32 + 1 + added);
        }
    }
}
