use std::cmp::Ordering;
use std::time::{SystemTime, UNIX_EPOCH};

use syncprim::alarm::{Alarm, AlarmBacklog, AlarmList, InsertionResult, NANOS_PER_SEC};

/// A reading of the clock, in nanoseconds.
fn now() -> u64 {
    SystemTime::now().duration_since(UNIX_EPOCH).unwrap().as_nanos() as u64
}

fn secs(s: u64) -> u64 {
    s * NANOS_PER_SEC
}

fn times(alarms: &[Alarm]) -> Vec<u64> {
    alarms.iter().map(|a| a.time).collect()
}

#[test]
fn prioritize_first_alarm() {
    let mut backlog = AlarmBacklog::new();
    let result = backlog.prioritize_new_alarm(Alarm {
        time: now(),
        seconds: 10,
        message: "Rust".to_string(),
    });

    assert_eq!(result, InsertionResult::NextChanged);
}

#[test]
fn prioritize_two_alarms_no_change() {
    let mut backlog = AlarmBacklog::new();

    let earlier = Alarm { time: now(), seconds: 0, message: "C".to_string() };
    let later = Alarm { time: now() + secs(10), seconds: 0, message: "Rust".to_string() };

    let result = backlog.prioritize_new_alarm(earlier);
    assert_eq!(result, InsertionResult::NextChanged);

    let result = backlog.prioritize_new_alarm(later);
    assert_eq!(result, InsertionResult::NoChange);
}

#[test]
fn prioritize_two_alarm_next_changed() {
    let mut backlog = AlarmBacklog::new();

    let earlier = Alarm { time: now(), seconds: 0, message: "C".to_string() };
    let later = Alarm { time: now() + secs(10), seconds: 0, message: "Rust".to_string() };

    let result = backlog.prioritize_new_alarm(later);
    assert_eq!(result, InsertionResult::NextChanged);

    let result = backlog.prioritize_new_alarm(earlier);
    assert_eq!(result, InsertionResult::NextChanged);
}

#[test]
fn extract_alarms() {
    let mut backlog = AlarmBacklog::new();
    assert!(backlog.extract_next().is_none());

    backlog.prioritize_new_alarm(Alarm {
        time: now() + secs(10),
        seconds: 10,
        message: "Rust".to_string(),
    });
    backlog.prioritize_new_alarm(Alarm { time: now(), seconds: 0, message: "C".to_string() });

    assert!(backlog.extract_next().is_some());
    assert!(backlog.extract_next().is_some());
    assert!(backlog.extract_next().is_none());
}

#[test]
fn cmp_next_to_other_time() {
    let mut backlog = AlarmBacklog::new();
    assert_eq!(backlog.cmp_next_to_other_time(&now()), Ordering::Greater);

    backlog.prioritize_new_alarm(Alarm {
        time: now() + secs(10),
        seconds: 10,
        message: "Rust".to_string(),
    });

    assert_eq!(backlog.cmp_next_to_other_time(&(now() + secs(15))), Ordering::Less);
    assert_eq!(backlog.cmp_next_to_other_time(&(now() + secs(5))), Ordering::Greater);
}

#[test]
fn cmp_next_to_the_same_time_is_equal() {
    let mut backlog = AlarmBacklog::new();
    backlog.prioritize_new_alarm(Alarm { time: 700, seconds: 0, message: "x".to_string() });
    assert_eq!(backlog.cmp_next_to_other_time(&700), Ordering::Equal);
    assert_eq!(backlog.cmp_next_to_other_time(&699), Ordering::Greater);
    assert_eq!(backlog.cmp_next_to_other_time(&701), Ordering::Less);
}

#[test]
fn alarm_new_adds_the_delay_in_nanoseconds() {
    let alarm = Alarm::new(5, 3, "tea".to_string());
    assert_eq!(alarm.time, 3_000_000_005);
    assert_eq!(alarm.seconds, 3);
    assert_eq!(alarm.message, "tea");
}

#[test]
fn alarm_remaining_is_zero_once_due() {
    let alarm = Alarm::new(0, 2, "tea".to_string());
    assert_eq!(alarm.remaining(500_000_000), 1_500_000_000);
    assert_eq!(alarm.remaining(2_000_000_000), 0);
    assert_eq!(alarm.remaining(2_000_000_001), 0);
}

#[test]
fn fresh_backlog_is_empty() {
    let backlog = AlarmBacklog::new();
    assert!(backlog.empty());
    assert!(backlog.backlog.is_empty());
    assert!(backlog.next.is_none());
}

#[test]
fn backlog_keeps_the_earliest_alarm_next_and_the_rest_in_order() {
    let mut backlog = AlarmBacklog::new();
    for (time, name) in [(50u64, "a"), (30, "b"), (40, "c"), (30, "d"), (60, "e"), (10, "f")] {
        backlog.prioritize_new_alarm(Alarm { time, seconds: 0, message: name.to_string() });
    }
    assert!(!backlog.empty());
    assert_eq!(backlog.next.as_ref().unwrap().time, 10);
    assert_eq!(backlog.next.as_ref().unwrap().message, "f");
    assert_eq!(times(&backlog.backlog), vec![30, 30, 40, 50, 60]);
    // Of two alarms with the same time the one that came to the backlog
    // later stands behind: "b" was waited for until "f" came.
    let names: Vec<&str> = backlog.backlog.iter().map(|a| a.message.as_str()).collect();
    assert_eq!(names, vec!["d", "b", "c", "a", "e"]);
}

#[test]
fn an_alarm_of_the_same_time_does_not_replace_the_next() {
    let mut backlog = AlarmBacklog::new();
    backlog.prioritize_new_alarm(Alarm { time: 5, seconds: 0, message: "first".to_string() });
    let result =
        backlog.prioritize_new_alarm(Alarm { time: 5, seconds: 0, message: "second".to_string() });
    assert_eq!(result, InsertionResult::NoChange);
    assert_eq!(backlog.next.as_ref().unwrap().message, "first");
    assert_eq!(backlog.backlog[0].message, "second");
}

#[test]
fn extract_next_moves_the_last_of_the_backlog_up() {
    let mut backlog = AlarmBacklog::new();
    for time in [10u64, 20, 30] {
        backlog.prioritize_new_alarm(Alarm { time, seconds: 0, message: String::new() });
    }
    let first = backlog.extract_next().unwrap();
    assert_eq!(first.time, 10);
    assert_eq!(backlog.next.as_ref().unwrap().time, 30);
    assert_eq!(times(&backlog.backlog), vec![20]);
    let second = backlog.extract_next().unwrap();
    assert_eq!(second.time, 30);
    assert_eq!(backlog.next.as_ref().unwrap().time, 20);
    assert!(backlog.backlog.is_empty());
    assert_eq!(backlog.extract_next().unwrap().time, 20);
    assert!(backlog.empty());
}

#[test]
fn alarm_list_hands_out_the_earliest_alarm_first() {
    let mut list = AlarmList::new();
    assert!(list.pop().is_none());
    for (time, name) in [(30u64, "a"), (10, "b"), (20, "c"), (10, "d")] {
        list.push(Alarm { time, seconds: 0, message: name.to_string() });
    }
    assert_eq!(times(&list.alarms), vec![30, 20, 10, 10]);
    let order: Vec<String> = std::iter::from_fn(|| list.pop()).map(|a| a.message).collect();
    assert_eq!(order, vec!["d", "b", "c", "a"]);
}
