use syncprim::pipe::{
    create_pipe, pipe_result, pipe_start, receive, send, worker, Outcome, Pipe, Progress, Stage,
    StageData,
};

#[test]
fn new_stage_holds_nothing_to_process() {
    let stage = Stage::new(9);
    assert_eq!(stage.stage_data, StageData { data: 9, unprocessed: false });
}

#[test]
fn new_pipe_has_one_stage_more_than_asked_for() {
    let pipe = Pipe::new(2);
    assert_eq!(pipe.stages.len(), 3);
    assert_eq!(pipe.active_count, 0);
    assert!(pipe.stages.iter().all(|s| s.stage_data == StageData { data: 0, unprocessed: false }));
    assert_eq!(*pipe.head(), pipe.stages[0]);
    assert_eq!(*pipe.tail(), pipe.stages[2]);
}

#[test]
fn pipe_without_working_stages_has_head_and_tail_in_one() {
    let pipe = Pipe::new(0);
    assert_eq!(pipe.stages.len(), 1);
    assert_eq!(*pipe.head(), *pipe.tail());
}

#[test]
fn send_fills_a_free_stage_and_leaves_a_full_one() {
    let mut stage = Stage::new(0);
    assert!(send(&mut stage, 5));
    assert_eq!(stage.stage_data, StageData { data: 5, unprocessed: true });
    assert!(!send(&mut stage, 6));
    assert_eq!(stage.stage_data, StageData { data: 5, unprocessed: true });
    assert_eq!(receive(&mut stage), Some(5));
    assert_eq!(stage.stage_data, StageData { data: 5, unprocessed: false });
    assert_eq!(receive(&mut stage), None);
    assert!(send(&mut stage, 6));
}

#[test]
fn a_number_grows_by_one_in_each_working_stage() {
    let mut pipe = create_pipe(2);
    assert_eq!(worker(&mut pipe, 0), Progress::AwaitInput);
    assert!(pipe_start(&mut pipe, 5));
    assert_eq!(pipe.active_count, 1);
    assert_eq!(pipe_result(&mut pipe), Outcome::Pending);
    assert_eq!(pipe.active_count, 0);
    assert_eq!(worker(&mut pipe, 1), Progress::AwaitInput);
    assert_eq!(worker(&mut pipe, 0), Progress::Forwarded);
    assert_eq!(pipe.stages[0].stage_data, StageData { data: 5, unprocessed: false });
    assert_eq!(pipe.stages[1].stage_data, StageData { data: 6, unprocessed: true });
    assert_eq!(worker(&mut pipe, 1), Progress::Forwarded);
    assert_eq!(pipe.stages[2].stage_data, StageData { data: 7, unprocessed: true });
    let mut tail = pipe.stages[2];
    assert_eq!(receive(&mut tail), Some(7));
}

#[test]
fn pipe_result_takes_what_has_arrived() {
    let mut pipe = create_pipe(1);
    assert_eq!(pipe_result(&mut pipe), Outcome::Empty);
    assert_eq!(Outcome::Empty.value(), Some(0));
    assert!(pipe_start(&mut pipe, 41));
    assert_eq!(worker(&mut pipe, 0), Progress::Forwarded);
    let outcome = pipe_result(&mut pipe);
    assert_eq!(outcome, Outcome::Ready(42));
    assert_eq!(outcome.value(), Some(42));
    assert_eq!(Outcome::Pending.value(), None);
    assert_eq!(pipe.active_count, 0);
    assert!(!pipe.tail().stage_data.unprocessed);
    assert_eq!(pipe_result(&mut pipe), Outcome::Empty);
}

#[test]
fn a_full_pipe_holds_numbers_back() {
    let mut pipe = create_pipe(1);
    assert!(pipe_start(&mut pipe, 1));
    assert!(!pipe_start(&mut pipe, 2));
    assert_eq!(pipe.active_count, 2);
    assert_eq!(pipe.stages[0].stage_data.data, 1);
    assert_eq!(worker(&mut pipe, 0), Progress::Forwarded);
    let mut head = pipe.stages[0];
    assert!(send(&mut head, 2));
    pipe.stages[0] = head;
    assert_eq!(worker(&mut pipe, 0), Progress::AwaitRoom);
    assert_eq!(pipe.stages[0].stage_data, StageData { data: 2, unprocessed: true });
    assert_eq!(pipe_result(&mut pipe), Outcome::Ready(2));
    assert_eq!(worker(&mut pipe, 0), Progress::Forwarded);
    assert_eq!(pipe_result(&mut pipe), Outcome::Ready(3));
    assert_eq!(pipe_result(&mut pipe), Outcome::Empty);
}
