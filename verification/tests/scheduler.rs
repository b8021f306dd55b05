use std::cmp::Ordering;

use timesimulation::{CommandPayload, CommandScheduler, ScheduledCommand};

fn command(timestamp: u64, text: &str) -> ScheduledCommand {
    ScheduledCommand {
        timestamp,
        command: CommandPayload::raw(text),
    }
}

fn drained(scheduler: &mut CommandScheduler, now: u64) -> Vec<(u64, String)> {
    scheduler
        .drain_ready(now)
        .into_iter()
        .map(|c| (c.timestamp, c.command.to_string()))
        .collect()
}

#[test]
fn scheduler_orders_by_timestamp() {
    let mut scheduler = CommandScheduler::new();
    scheduler.schedule(5, CommandPayload::raw("later"));
    scheduler.schedule(1, CommandPayload::raw("first"));
    scheduler.schedule(3, CommandPayload::raw("middle"));

    assert!(scheduler.has_ready(1));
    let ready = scheduler.drain_ready(10);
    let timestamps: Vec<u64> = ready.into_iter().map(|c| c.timestamp).collect();
    assert_eq!(timestamps, vec![1, 3, 5]);
}

#[test]
fn scheduler_reports_next_timestamp() {
    let mut scheduler = CommandScheduler::new();
    assert!(scheduler.next_timestamp().is_none());

    scheduler.schedule(7, CommandPayload::raw("cmd"));
    assert_eq!(scheduler.next_timestamp(), Some(7));
}

#[test]
fn commands_at_one_timestamp_run_from_the_greatest_text_down() {
    let mut scheduler = CommandScheduler::default();
    for text in ["b", "a", "bb", "b", ""] {
        scheduler.schedule(4, CommandPayload::raw(text));
    }
    let texts: Vec<String> = drained(&mut scheduler, 4).into_iter().map(|c| c.1).collect();
    assert_eq!(texts, vec!["bb", "b", "b", "a", ""]);
    assert!(scheduler.is_empty());
}

#[test]
fn draining_takes_what_is_due_and_leaves_the_rest() {
    let mut scheduler = CommandScheduler::new();
    scheduler.schedule(2, CommandPayload::raw("two"));
    scheduler.schedule(9, CommandPayload::raw("nine"));
    scheduler.schedule(u64::MAX, CommandPayload::raw("last"));
    assert!(!scheduler.has_ready(1));
    assert!(drained(&mut scheduler, 1).is_empty());
    assert_eq!(drained(&mut scheduler, 2), vec![(2, "two".to_string())]);
    assert_eq!(scheduler.next_timestamp(), Some(9));
    assert_eq!(
        drained(&mut scheduler, u64::MAX),
        vec![(9, "nine".to_string()), (u64::MAX, "last".to_string())]
    );
    assert!(scheduler.is_empty());
    assert!(!scheduler.has_ready(u64::MAX));
    assert_eq!(scheduler.next_timestamp(), None);
}

#[test]
fn draining_in_two_parts_is_draining_at_once() {
    let entries = [(3, "c"), (1, "a"), (2, "b"), (3, "d"), (1, "z")];
    let mut whole = CommandScheduler::new();
    let mut parts = CommandScheduler::new();
    for (timestamp, text) in entries {
        whole.schedule(timestamp, CommandPayload::raw(text));
    }
    for (timestamp, text) in entries.iter().rev() {
        parts.schedule(*timestamp, CommandPayload::raw(*text));
    }
    let mut collected = drained(&mut parts, 1);
    collected.extend(drained(&mut parts, 3));
    assert_eq!(collected, drained(&mut whole, 3));
}

#[test]
fn the_command_that_runs_first_is_the_greatest() {
    assert_eq!(command(1, "x").cmp(&command(2, "a")), Ordering::Greater);
    assert_eq!(command(2, "a").cmp(&command(1, "x")), Ordering::Less);
    assert_eq!(command(1, "b").cmp(&command(1, "a")), Ordering::Greater);
    assert_eq!(command(1, "a").cmp(&command(1, "ab")), Ordering::Less);
    assert_eq!(command(1, "a").cmp(&command(1, "a")), Ordering::Equal);
    assert!(command(2, "a") < command(1, "x"));
    assert_eq!(
        command(1, "a").partial_cmp(&command(1, "a")),
        Some(Ordering::Equal)
    );
}
