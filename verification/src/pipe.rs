//! A pipeline of stages, each of which adds one to a number and hands it on.
//!
//! Every stage holds at most one number. The embedding program keeps each
//! stage behind a lock with two signals, "available" and "ready"; the
//! functions here are the decisions taken with the locks held, and their
//! results say which signal to wait for or to raise.

use vstd::prelude::*;

verus! {

/// What the lock of one stage protects.
#[derive(Clone, Copy, Debug, PartialEq, Eq, Structural)]
pub struct StageData {
    /// The number that the stage holds.
    pub data: u64,
    /// The number has not been taken by the stage's worker yet.
    pub unprocessed: bool,
}

/// One stage of the pipeline.
#[derive(Clone, Copy, Debug, PartialEq, Eq, Structural)]
pub struct Stage {
    pub stage_data: StageData,
}

impl Stage {
    /// A stage that holds nothing to process.
    pub fn new(data: u64) -> (stage: Self)
        ensures
            stage.stage_data == (StageData { data, unprocessed: false }),
    {
        Stage { stage_data: StageData { data, unprocessed: false } }
    }

    /// The stage once `data` was put into it.
    pub open spec fn filled(data: u64) -> Stage {
        Stage { stage_data: StageData { data, unprocessed: true } }
    }

    /// The number that the stage holds can grow by one.
    pub open spec fn has_room(self) -> bool {
        self.stage_data.unprocessed ==> self.stage_data.data < u64::MAX
    }

    /// The stage once its number was taken out.
    pub open spec fn drained(self) -> Stage {
        Stage { stage_data: StageData { unprocessed: false, ..self.stage_data } }
    }
}

/// The stages, and how many numbers are on their way.
#[derive(Debug)]
pub struct Pipe {
    /// The working stages, and behind them the stage that holds results.
    pub stages: Vec<Stage>,
    /// Numbers that were put in and not yet asked for.
    pub active_count: usize,
}

impl Pipe {
    /// There is a stage to put numbers in and one to take results from.
    pub open spec fn wf(&self) -> bool {
        self.stages@.len() >= 1
    }

    /// A pipeline of `stages` working stages and one more for the results,
    /// all empty.
    pub fn new(stages: usize) -> (pipe: Self)
        requires
            stages < usize::MAX,
        ensures
            pipe.wf(),
            pipe.active_count == 0,
            pipe.stages@.len() == stages + 1,
            forall|i: int|
                0 <= i <= stages ==> (#[trigger] pipe.stages@[i]).stage_data == (StageData {
                    data: 0,
                    unprocessed: false,
                }),
    {
        let mut list: Vec<Stage> = Vec::new();
        let mut i: usize = 0;
        while i < stages + 1
            invariant
                stages < usize::MAX,
                i <= stages + 1,
                list@.len() == i,
                forall|k: int|
                    0 <= k < i ==> (#[trigger] list@[k]).stage_data == (StageData {
                        data: 0,
                        unprocessed: false,
                    }),
            decreases stages + 1 - i,
        {
            list.push(Stage::new(0));
            i = i + 1;
        }
        Pipe { stages: list, active_count: 0 }
    }

    /// The stage that numbers are put into.
    pub fn head(&self) -> (stage: &Stage)
        requires
            self.wf(),
        ensures
            *stage == self.stages@[0],
    {
        &self.stages[0]
    }

    /// The stage that results are taken from.
    pub fn tail(&self) -> (stage: &Stage)
        requires
            self.wf(),
        ensures
            *stage == self.stages@.last(),
    {
        &self.stages[self.stages.len() - 1]
    }
}

/// Puts `new_data` into the stage if the stage is free.
///
/// Returns whether it did. If so, the caller raises the stage's "available"
/// signal. If not, the stage is left as it is; the caller waits for its
/// "ready" signal and tries again.
pub fn send(target_stage: &mut Stage, new_data: u64) -> (sent: bool)
    ensures
        sent == !old(target_stage).stage_data.unprocessed,
        sent ==> *final(target_stage) == Stage::filled(new_data),
        !sent ==> *final(target_stage) == *old(target_stage),
{
    if target_stage.stage_data.unprocessed {
        false
    } else {
        target_stage.stage_data.data = new_data;
        target_stage.stage_data.unprocessed = true;
        true
    }
}

/// Takes the number out of the stage if there is one to take.
///
/// If there is, the caller raises the stage's "ready" signal. If there is
/// none, the caller waits for the stage's "available" signal and tries
/// again.
pub fn receive(stage: &mut Stage) -> (data: Option<u64>)
    ensures
        old(stage).stage_data.unprocessed ==> data == Some(old(stage).stage_data.data)
            && *final(stage) == old(stage).drained(),
        !old(stage).stage_data.unprocessed ==> data is None && *final(stage) == *old(stage),
{
    if stage.stage_data.unprocessed {
        stage.stage_data.unprocessed = false;
        Some(stage.stage_data.data)
    } else {
        None
    }
}

/// What the worker of a stage does next.
#[derive(Clone, Copy, Debug, PartialEq, Eq, Structural)]
pub enum Progress {
    /// Its stage holds nothing: wait for the stage's "available" signal.
    AwaitInput,
    /// The next stage is full: wait for that stage's "ready" signal.
    AwaitRoom,
    /// The number went on: raise the next stage's "available" signal and
    /// the own stage's "ready" signal.
    Forwarded,
}

/// The effect of one try of the worker of stage `stage_idx`.
pub open spec fn worked(stages: Seq<Stage>, stage_idx: int) -> (Seq<Stage>, Progress) {
    let own = stages[stage_idx];
    let next = stages[stage_idx + 1];
    if !own.stage_data.unprocessed {
        (stages, Progress::AwaitInput)
    } else if next.stage_data.unprocessed {
        (stages, Progress::AwaitRoom)
    } else {
        (
            stages.update(stage_idx, own.drained()).update(
                stage_idx + 1,
                Stage::filled((own.stage_data.data + 1) as u64),
            ),
            Progress::Forwarded,
        )
    }
}

/// One try of the worker of stage `stage_idx`: if its stage holds a number
/// and the next stage is free, the number plus one goes to the next stage.
pub fn worker(pipe: &mut Pipe, stage_idx: usize) -> (progress: Progress)
    requires
        stage_idx + 1 < old(pipe).stages@.len(),
        old(pipe).stages@[stage_idx as int].has_room(),
    ensures
        final(pipe).active_count == old(pipe).active_count,
        (final(pipe).stages@, progress) == worked(old(pipe).stages@, stage_idx as int),
{
    let count = pipe.stages.len();
    let mut own = pipe.stages[stage_idx];
    if !own.stage_data.unprocessed {
        return Progress::AwaitInput;
    }
    assert(stage_idx + 1 < count);
    let mut next = pipe.stages[stage_idx + 1];
    if !send(&mut next, own.stage_data.data + 1) {
        return Progress::AwaitRoom;
    }
    own.stage_data.unprocessed = false;
    pipe.stages.set(stage_idx, own);
    pipe.stages.set(stage_idx + 1, next);
    Progress::Forwarded
}

/// A pipeline of `stages` working stages. The caller starts one worker for
/// each of the stages `0` to `stages - 1`.
pub fn create_pipe(stages: usize) -> (pipe: Pipe)
    requires
        0 < stages < usize::MAX,
    ensures
        pipe.wf(),
        pipe.active_count == 0,
        pipe.stages@.len() == stages + 1,
        forall|i: int|
            0 <= i <= stages ==> (#[trigger] pipe.stages@[i]).stage_data == (StageData {
                data: 0,
                unprocessed: false,
            }),
{
    Pipe::new(stages)
}

/// Counts one more number as on its way and tries to put it into the first
/// stage.
///
/// Returns whether the first stage took it. If not, the caller waits for
/// that stage's "ready" signal and calls `send` on it until the number is
/// taken.
pub fn pipe_start(pipe: &mut Pipe, data: u64) -> (sent: bool)
    requires
        old(pipe).wf(),
        old(pipe).active_count < usize::MAX,
    ensures
        final(pipe).wf(),
        final(pipe).active_count == old(pipe).active_count + 1,
        sent == !old(pipe).stages@[0].stage_data.unprocessed,
        sent ==> final(pipe).stages@ == old(pipe).stages@.update(0, Stage::filled(data)),
        !sent ==> final(pipe).stages@ == old(pipe).stages@,
{
    pipe.active_count = pipe.active_count + 1;
    let mut head = pipe.stages[0];
    let sent = send(&mut head, data);
    pipe.stages.set(0, head);
    assert(!sent ==> pipe.stages@ =~= old(pipe).stages@);
    sent
}

/// What asking for a result found.
#[derive(Clone, Copy, Debug, PartialEq, Eq, Structural)]
pub enum Outcome {
    /// No number is on its way.
    Empty,
    /// The result.
    Ready(u64),
    /// The result has not reached the last stage: the caller waits for that
    /// stage's "available" signal and calls `receive` on it until the
    /// result is there.
    Pending,
}

impl Outcome {
    /// The result as a bare number, with zero for "no number is on its
    /// way".
    pub fn value(&self) -> (number: Option<u64>)
        ensures
            *self == Outcome::Empty ==> number == Some(0u64),
            *self matches Outcome::Ready(n) ==> number == Some(n),
            *self == Outcome::Pending ==> number is None,
    {
        match self {
            Outcome::Empty => Some(0),
            Outcome::Ready(n) => Some(*n),
            Outcome::Pending => None,
        }
    }
}

/// Asks for the next result. If a number is on its way, it is counted as
/// asked for, and taken from the last stage if it is there already.
pub fn pipe_result(pipe: &mut Pipe) -> (outcome: Outcome)
    requires
        old(pipe).wf(),
    ensures
        final(pipe).wf(),
        old(pipe).active_count == 0 ==> outcome == Outcome::Empty && final(pipe).active_count == 0
            && final(pipe).stages@ == old(pipe).stages@,
        old(pipe).active_count > 0 ==> final(pipe).active_count == old(pipe).active_count - 1,
        old(pipe).active_count > 0 && old(pipe).stages@.last().stage_data.unprocessed ==> outcome
            == Outcome::Ready(old(pipe).stages@.last().stage_data.data) && final(pipe).stages@
            == old(pipe).stages@.update(
            old(pipe).stages@.len() - 1,
            old(pipe).stages@.last().drained(),
        ),
        old(pipe).active_count > 0 && !old(pipe).stages@.last().stage_data.unprocessed ==> outcome
            == Outcome::Pending && final(pipe).stages@ == old(pipe).stages@,
{
    if pipe.active_count == 0 {
        return Outcome::Empty;
    }
    pipe.active_count = pipe.active_count - 1;
    let last = pipe.stages.len() - 1;
    let mut tail = pipe.stages[last];
    let taken = receive(&mut tail);
    pipe.stages.set(last, tail);
    match taken {
        Some(result) => Outcome::Ready(result),
        None => {
            assert(pipe.stages@ =~= old(pipe).stages@);
            Outcome::Pending
        },
    }
}

/// The stages after the workers of the stages `from`, `from + 1` and so on,
/// `hops` of them, have had one try each, in that order.
pub open spec fn passed_on(stages: Seq<Stage>, from: int, hops: nat) -> Seq<Stage>
    decreases hops,
{
    if hops == 0 {
        stages
    } else {
        passed_on(worked(stages, from).0, from + 1, (hops - 1) as nat)
    }
}

/// The workers from `from` on leave every stage before `from` as it is.
pub proof fn lemma_earlier_stages_rest(stages: Seq<Stage>, from: int, hops: nat, i: int)
    requires
        0 <= i < from,
        from + hops < stages.len(),
    ensures
        passed_on(stages, from, hops).len() == stages.len(),
        passed_on(stages, from, hops)[i] == stages[i],
    decreases hops,
{
    if hops > 0 {
        lemma_earlier_stages_rest(worked(stages, from).0, from + 1, (hops - 1) as nat, i);
    }
}

/// A number that stands in stage `from`, with the `hops` stages behind it
/// free, stands `hops` stages further on when each of the workers in between
/// has had one try in order; it has grown by one for every stage that it
/// left, and the stages that it left are free.
pub proof fn lemma_number_travels(stages: Seq<Stage>, from: int, hops: nat)
    requires
        0 <= from,
        from + hops < stages.len(),
        stages[from].stage_data.unprocessed,
        stages[from].stage_data.data + hops <= u64::MAX,
        forall|i: int| from < i <= from + hops ==> !(#[trigger] stages[i]).stage_data.unprocessed,
    ensures
        passed_on(stages, from, hops).len() == stages.len(),
        passed_on(stages, from, hops)[from + hops] == Stage::filled(
            (stages[from].stage_data.data + hops) as u64,
        ),
        forall|i: int|
            from <= i < from + hops ==> !(#[trigger] passed_on(
                stages,
                from,
                hops,
            )[i]).stage_data.unprocessed,
    decreases hops,
{
    if hops > 0 {
        let moved = worked(stages, from).0;
        lemma_number_travels(moved, from + 1, (hops - 1) as nat);
        lemma_earlier_stages_rest(moved, from + 1, (hops - 1) as nat, from);
    }
}

} // verus!
