//! Alarms and the order in which they are due.
//!
//! Times are readings of the caller's monotonic clock, in nanoseconds. The
//! clock itself, and the sleeping until an alarm is due, belong to the
//! embedding program.

use std::cmp::Ordering;
use vstd::prelude::*;

verus! {

/// Nanoseconds in one second.
pub const NANOS_PER_SEC: u64 = 1_000_000_000;

/// A message and the moment at which it is due.
#[derive(Debug)]
pub struct Alarm {
    /// The clock reading at which the alarm expires.
    pub time: u64,
    /// The delay that was asked for, in seconds.
    pub seconds: u64,
    /// What to show when the alarm expires.
    pub message: String,
}

impl Alarm {
    /// An alarm that expires `s` seconds after the clock reading `now`.
    pub fn new(now: u64, s: u64, m: String) -> (alarm: Self)
        requires
            now + s * NANOS_PER_SEC <= u64::MAX,
        ensures
            alarm.time == now + s * NANOS_PER_SEC,
            alarm.seconds == s,
            alarm.message == m,
    {
        Alarm { time: now + s * NANOS_PER_SEC, seconds: s, message: m }
    }

    /// How long from `now` until the alarm expires; zero once it is due.
    pub fn remaining(&self, now: u64) -> (wait: u64)
        ensures
            self.time <= now ==> wait == 0,
            self.time > now ==> wait == self.time - now,
    {
        if self.time <= now {
            0
        } else {
            self.time - now
        }
    }
}

/// No alarm stands before one that expires earlier.
pub open spec fn ascending(alarms: Seq<Alarm>) -> bool {
    forall|i: int, j: int| 0 <= i <= j < alarms.len() ==> alarms[i].time <= alarms[j].time
}

/// No alarm stands before one that expires later.
pub open spec fn descending(alarms: Seq<Alarm>) -> bool {
    forall|i: int, j: int| 0 <= i <= j < alarms.len() ==> alarms[i].time >= alarms[j].time
}

/// The place just behind the last alarm that expires at `time` or earlier.
pub open spec fn rank(alarms: Seq<Alarm>, time: u64) -> int
    decreases alarms.len(),
{
    if alarms.len() == 0 {
        0
    } else if alarms.last().time <= time {
        alarms.len() as int
    } else {
        rank(alarms.drop_last(), time)
    }
}

/// The place just behind the last alarm that expires at `time` or later.
pub open spec fn rank_descending(alarms: Seq<Alarm>, time: u64) -> int
    decreases alarms.len(),
{
    if alarms.len() == 0 {
        0
    } else if alarms.last().time >= time {
        alarms.len() as int
    } else {
        rank_descending(alarms.drop_last(), time)
    }
}

/// `alarms` with `alarm` put in by its time, behind those of the same time.
pub open spec fn slotted(alarms: Seq<Alarm>, alarm: Alarm) -> Seq<Alarm> {
    alarms.insert(rank(alarms, alarm.time), alarm)
}

/// `alarms`, latest first, with `alarm` put in by its time, behind those of
/// the same time.
pub open spec fn slotted_descending(alarms: Seq<Alarm>, alarm: Alarm) -> Seq<Alarm> {
    alarms.insert(rank_descending(alarms, alarm.time), alarm)
}

/// In an ascending sequence the rank splits the alarms that are not later
/// than `time` from those that are.
pub proof fn lemma_rank_splits(alarms: Seq<Alarm>, time: u64)
    requires
        ascending(alarms),
    ensures
        0 <= rank(alarms, time) <= alarms.len(),
        forall|i: int| 0 <= i < rank(alarms, time) ==> alarms[i].time <= time,
        forall|i: int| rank(alarms, time) <= i < alarms.len() ==> alarms[i].time > time,
    decreases alarms.len(),
{
    if alarms.len() > 0 && alarms.last().time > time {
        let front = alarms.drop_last();
        assert(ascending(front)) by {
            assert forall|i: int, j: int| 0 <= i <= j < front.len() implies front[i].time
                <= front[j].time by {
                assert(front[i] == alarms[i] && front[j] == alarms[j]);
            }
        }
        lemma_rank_splits(front, time);
        assert forall|i: int| 0 <= i < rank(alarms, time) implies alarms[i].time <= time by {
            assert(front[i] == alarms[i]);
        }
        assert forall|i: int| rank(alarms, time) <= i < alarms.len() implies alarms[i].time
            > time by {
            if i < front.len() {
                assert(front[i] == alarms[i]);
            }
        }
    }
}

/// In a descending sequence the rank splits the alarms that are not earlier
/// than `time` from those that are.
pub proof fn lemma_rank_descending_splits(alarms: Seq<Alarm>, time: u64)
    requires
        descending(alarms),
    ensures
        0 <= rank_descending(alarms, time) <= alarms.len(),
        forall|i: int| 0 <= i < rank_descending(alarms, time) ==> alarms[i].time >= time,
        forall|i: int| rank_descending(alarms, time) <= i < alarms.len() ==> alarms[i].time < time,
    decreases alarms.len(),
{
    if alarms.len() > 0 && alarms.last().time < time {
        let front = alarms.drop_last();
        assert(descending(front)) by {
            assert forall|i: int, j: int| 0 <= i <= j < front.len() implies front[i].time
                >= front[j].time by {
                assert(front[i] == alarms[i] && front[j] == alarms[j]);
            }
        }
        lemma_rank_descending_splits(front, time);
        assert forall|i: int| 0 <= i < rank_descending(alarms, time) implies alarms[i].time
            >= time by {
            assert(front[i] == alarms[i]);
        }
        assert forall|i: int|
            rank_descending(alarms, time) <= i < alarms.len() implies alarms[i].time < time by {
            if i < front.len() {
                assert(front[i] == alarms[i]);
            }
        }
    }
}

/// Putting an alarm in by its time keeps an ascending sequence ascending.
pub proof fn lemma_slotted_ascending(alarms: Seq<Alarm>, alarm: Alarm)
    requires
        ascending(alarms),
    ensures
        ascending(slotted(alarms, alarm)),
        slotted(alarms, alarm).len() == alarms.len() + 1,
{
    lemma_rank_splits(alarms, alarm.time);
}

/// Putting an alarm in by its time keeps a descending sequence descending.
pub proof fn lemma_slotted_descending(alarms: Seq<Alarm>, alarm: Alarm)
    requires
        descending(alarms),
    ensures
        descending(slotted_descending(alarms, alarm)),
        slotted_descending(alarms, alarm).len() == alarms.len() + 1,
{
    lemma_rank_descending_splits(alarms, alarm.time);
}

/// Puts `alarm` into `alarms` behind the last alarm that is not later.
fn slot(alarms: &mut Vec<Alarm>, alarm: Alarm)
    ensures
        final(alarms)@ == slotted(old(alarms)@, alarm),
{
    let mut place: usize = alarms.len();
    assert(alarms@.subrange(0, place as int) =~= alarms@);
    while place > 0 && alarms[place - 1].time > alarm.time
        invariant
            place <= alarms.len(),
            alarms@ == old(alarms)@,
            rank(alarms@, alarm.time) == rank(alarms@.subrange(0, place as int), alarm.time),
        decreases place,
    {
        assert(alarms@.subrange(0, place as int).drop_last() =~= alarms@.subrange(
            0,
            place - 1,
        ));
        place = place - 1;
    }
    alarms.insert(place, alarm);
}

/// Puts `alarm` into `alarms` behind the last alarm that is not earlier.
fn slot_descending(alarms: &mut Vec<Alarm>, alarm: Alarm)
    ensures
        final(alarms)@ == slotted_descending(old(alarms)@, alarm),
{
    let mut place: usize = alarms.len();
    assert(alarms@.subrange(0, place as int) =~= alarms@);
    while place > 0 && alarms[place - 1].time < alarm.time
        invariant
            place <= alarms.len(),
            alarms@ == old(alarms)@,
            rank_descending(alarms@, alarm.time) == rank_descending(
                alarms@.subrange(0, place as int),
                alarm.time,
            ),
        decreases place,
    {
        assert(alarms@.subrange(0, place as int).drop_last() =~= alarms@.subrange(
            0,
            place - 1,
        ));
        place = place - 1;
    }
    alarms.insert(place, alarm);
}

/// Whether a new alarm changed which alarm is due next.
#[derive(Clone, Copy, Debug, PartialEq, Eq, Structural)]
pub enum InsertionResult {
    NoChange,
    NextChanged,
}

/// The alarm that is waited for, and those behind it.
#[derive(Debug)]
pub struct AlarmBacklog {
    /// The alarms that are not waited for, earliest first.
    pub backlog: Vec<Alarm>,
    /// The alarm that is waited for.
    pub next: Option<Alarm>,
}

impl AlarmBacklog {
    /// The backlog is in order of time, and holds nothing while no alarm is
    /// waited for.
    pub open spec fn wf(&self) -> bool {
        &&& ascending(self.backlog@)
        &&& self.next is None ==> self.backlog@.len() == 0
    }

    /// A backlog without alarms.
    pub fn new() -> (backlog: Self)
        ensures
            backlog.wf(),
            backlog.next is None,
            backlog.backlog@.len() == 0,
    {
        AlarmBacklog { backlog: Vec::new(), next: None }
    }

    /// Takes a new alarm in. The earlier of it and the alarm that is waited
    /// for is waited for from now on; the other goes into the backlog by its
    /// time, behind those of the same time. The alarm that was waited for
    /// stays if the new one is not earlier.
    pub fn prioritize_new_alarm(&mut self, alarm: Alarm) -> (result: InsertionResult)
        requires
            old(self).wf(),
        ensures
            final(self).wf(),
            match old(self).next {
                None => {
                    &&& result == InsertionResult::NextChanged
                    &&& final(self).next == Some(alarm)
                    &&& final(self).backlog@ == old(self).backlog@
                },
                Some(next) => if next.time > alarm.time {
                    &&& result == InsertionResult::NextChanged
                    &&& final(self).next == Some(alarm)
                    &&& final(self).backlog@ == slotted(old(self).backlog@, next)
                } else {
                    &&& result == InsertionResult::NoChange
                    &&& final(self).next == Some(next)
                    &&& final(self).backlog@ == slotted(old(self).backlog@, alarm)
                },
            },
    {
        match self.next.take() {
            Some(next) => {
                if next.time > alarm.time {
                    proof {
                        lemma_slotted_ascending(self.backlog@, next);
                    }
                    slot(&mut self.backlog, next);
                    self.next = Some(alarm);
                    InsertionResult::NextChanged
                } else {
                    proof {
                        lemma_slotted_ascending(self.backlog@, alarm);
                    }
                    slot(&mut self.backlog, alarm);
                    self.next = Some(next);
                    InsertionResult::NoChange
                }
            },
            None => {
                self.next = Some(alarm);
                InsertionResult::NextChanged
            },
        }
    }

    /// No alarm is waited for.
    pub fn empty(&self) -> (none: bool)
        ensures
            none == (self.next is None),
    {
        self.next.is_none()
    }

    /// Hands out the alarm that is waited for, and waits for the last alarm
    /// of the backlog from now on.
    pub fn extract_next(&mut self) -> (next: Option<Alarm>)
        requires
            old(self).wf(),
        ensures
            final(self).wf(),
            next == old(self).next,
            old(self).backlog@.len() == 0 ==> final(self).next is None && final(self).backlog@
                == old(self).backlog@,
            old(self).backlog@.len() > 0 ==> final(self).next == Some(old(self).backlog@.last())
                && final(self).backlog@ == old(self).backlog@.drop_last(),
    {
        let next = self.next.take();
        self.next = self.backlog.pop();
        next
    }

    /// How the alarm that is waited for stands to the time `i`: before it,
    /// at it, or after it. With no alarm waited for the answer is "after".
    pub fn cmp_next_to_other_time(&self, i: &u64) -> (order: Ordering)
        ensures
            match self.next {
                Some(next) => {
                    &&& order == Ordering::Less <==> next.time < *i
                    &&& order == Ordering::Equal <==> next.time == *i
                    &&& order == Ordering::Greater <==> next.time > *i
                },
                None => order == Ordering::Greater,
            },
    {
        match &self.next {
            Some(next) => {
                if next.time < *i {
                    Ordering::Less
                } else if next.time == *i {
                    Ordering::Equal
                } else {
                    Ordering::Greater
                }
            },
            None => Ordering::Greater,
        }
    }
}

/// Alarms that wait for their time, latest first, so that the one that is
/// due first is the last.
#[derive(Debug)]
pub struct AlarmList {
    pub alarms: Vec<Alarm>,
}

impl AlarmList {
    /// The alarms are in order of time, latest first.
    pub open spec fn wf(&self) -> bool {
        descending(self.alarms@)
    }

    /// A list without alarms.
    pub fn new() -> (list: Self)
        ensures
            list.wf(),
            list.alarms@.len() == 0,
    {
        AlarmList { alarms: Vec::new() }
    }

    /// Puts `alarm` in by its time, behind those of the same time.
    pub fn push(&mut self, alarm: Alarm)
        requires
            old(self).wf(),
        ensures
            final(self).wf(),
            final(self).alarms@ == slotted_descending(old(self).alarms@, alarm),
    {
        proof {
            lemma_slotted_descending(self.alarms@, alarm);
        }
        slot_descending(&mut self.alarms, alarm);
    }

    /// Takes out the alarm that is due first, if there is one.
    pub fn pop(&mut self) -> (alarm: Option<Alarm>)
        requires
            old(self).wf(),
        ensures
            final(self).wf(),
            old(self).alarms@.len() == 0 ==> alarm is None,
            old(self).alarms@.len() == 0 ==> final(self).alarms@ == old(self).alarms@,
            old(self).alarms@.len() > 0 ==> alarm == Some(old(self).alarms@.last()),
            old(self).alarms@.len() > 0 ==> final(self).alarms@ == old(self).alarms@.drop_last(),
            alarm matches Some(a) ==> forall|i: int|
                0 <= i < final(self).alarms@.len() ==> a.time <= final(self).alarms@[i].time,
    {
        self.alarms.pop()
    }
}

} // verus!
