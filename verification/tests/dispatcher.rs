use timesimulation::sink::{Recorded, RecordingSink};
use timesimulation::{CommandPayload, CommandSink, Dispatcher, ScheduledCommand};

#[derive(Debug, Default)]
struct SplitSink {
    times: Vec<u64>,
    executed: Vec<ScheduledCommand>,
}

impl CommandSink for SplitSink {
    fn publish_time(&mut self, time: u64) {
        self.times.push(time);
    }

    fn execute(&mut self, command: &ScheduledCommand) {
        self.executed.push(command.clone());
    }
}

fn log(dispatcher: &Dispatcher<RecordingSink>) -> Vec<String> {
    dispatcher
        .sink()
        .record()
        .iter()
        .map(|call| match call {
            Recorded::Published(time) => format!("t{time}"),
            Recorded::Executed(command) => {
                format!("x{}:{}", command.timestamp, command.command.as_str())
            }
        })
        .collect()
}

#[test]
fn dispatcher_advances_and_executes_in_order() {
    let sink = SplitSink::default();
    let mut dispatcher = Dispatcher::new_with_clock(sink, 0);

    dispatcher.enqueue(2, "second".to_string());
    dispatcher.enqueue(1, "first".to_string());
    dispatcher.enqueue(3, "third".to_string());

    dispatcher.step(1);
    dispatcher.step(1);
    dispatcher.step(1);

    assert_eq!(dispatcher.sink().times, vec![1, 2, 3]);
    assert_eq!(
        dispatcher.sink().executed,
        vec![
            ScheduledCommand {
                timestamp: 1,
                command: CommandPayload::raw("first"),
            },
            ScheduledCommand {
                timestamp: 2,
                command: CommandPayload::raw("second"),
            },
            ScheduledCommand {
                timestamp: 3,
                command: CommandPayload::raw("third"),
            },
        ]
    );
}

#[test]
fn dispatcher_can_parse_pipe_lines() {
    let sink = SplitSink::default();
    let mut dispatcher = Dispatcher::new(sink);

    dispatcher
        .enqueue_from_pipe("5:launch")
        .expect("line should parse");
    dispatcher.advance_to(5);

    assert_eq!(dispatcher.sink().executed.len(), 1);
    assert_eq!(dispatcher.sink().executed[0].command.as_str(), "launch");
}

#[test]
fn dispatcher_ignores_commands_before_time() {
    let sink = SplitSink::default();
    let mut dispatcher = Dispatcher::new(sink);

    dispatcher.enqueue_from_pipe("10:late").unwrap();
    dispatcher.step(5);

    assert!(dispatcher.sink().executed.is_empty());
    dispatcher.advance_to(10);

    assert_eq!(dispatcher.sink().executed.len(), 1);
    assert_eq!(dispatcher.sink().executed[0].timestamp, 10);
    assert_eq!(dispatcher.sink().times, vec![5, 10]);
}

#[test]
fn dispatcher_keeps_time_monotonic_when_advancing_backward() {
    let sink = SplitSink::default();
    let mut dispatcher = Dispatcher::new_with_clock(sink, 5);

    dispatcher.advance_to(3);
    dispatcher.step(0);

    assert_eq!(dispatcher.now(), 5);
    assert_eq!(dispatcher.sink().times, vec![5, 5]);
}

#[test]
fn ticks_advance_by_the_rate() {
    let mut dispatcher = Dispatcher::new_with_tick_rate(RecordingSink::new(), 0, 2);
    dispatcher.enqueue(4, "launch".to_string());
    dispatcher.tick();
    assert_eq!(dispatcher.now(), 2);
    dispatcher.tick();
    assert_eq!(dispatcher.now(), 4);
    assert_eq!(log(&dispatcher), vec!["t2", "t4", "x4:launch"]);
    dispatcher.set_tick_rate(10);
    assert_eq!(dispatcher.tick_rate(), 10);
    dispatcher.run_for_ticks(2);
    assert_eq!(dispatcher.now(), 24);
    assert_eq!(Dispatcher::new(RecordingSink::new()).tick_rate(), 1);
    assert_eq!(Dispatcher::new_with_clock(RecordingSink::new(), 8).now(), 8);
}

#[test]
fn the_time_is_published_before_what_is_due_runs() {
    let mut dispatcher = Dispatcher::new(RecordingSink::new());
    dispatcher.enqueue(3, "c".to_string());
    dispatcher.enqueue_payload(1, CommandPayload::raw("a"));
    dispatcher.enqueue(7, "z".to_string());
    dispatcher.advance_to(3);
    assert_eq!(log(&dispatcher), vec!["t3", "x1:a", "x3:c"]);
}

#[test]
fn commands_for_the_past_run_at_the_next_step() {
    let mut dispatcher = Dispatcher::new_with_clock(RecordingSink::new(), 50);
    dispatcher.enqueue(3, "late".to_string());
    dispatcher.step(0);
    assert_eq!(log(&dispatcher), vec!["t50", "x3:late"]);
}

#[test]
fn the_order_of_enqueues_does_not_matter() {
    let mut forward = Dispatcher::new(RecordingSink::new());
    let mut backward = Dispatcher::new(RecordingSink::new());
    let entries = [(2, "b"), (1, "a"), (2, "a"), (5, "e")];
    for (timestamp, text) in entries {
        forward.enqueue(timestamp, text.to_string());
    }
    for (timestamp, text) in entries.iter().rev() {
        backward.enqueue(*timestamp, text.to_string());
    }
    forward.run_for_ticks(6);
    backward.run_for_ticks(6);
    assert_eq!(log(&forward), log(&backward));
}

#[test]
fn running_ticks_in_parts_is_running_them_at_once() {
    let mut whole = Dispatcher::new_with_tick_rate(RecordingSink::new(), 1, 3);
    let mut parts = Dispatcher::new_with_tick_rate(RecordingSink::new(), 1, 3);
    for dispatcher in [&mut whole, &mut parts] {
        dispatcher.enqueue_from_pipe("7:x").unwrap();
        dispatcher.enqueue_from_pipe("11:y").unwrap();
    }
    whole.run_for_ticks(5);
    parts.run_for_ticks(2);
    parts.run_for_ticks(0);
    parts.run_for_ticks(3);
    assert_eq!(log(&whole), log(&parts));
    assert_eq!(
        log(&whole),
        vec!["t4", "t7", "x7:x", "t10", "t13", "x11:y", "t16"]
    );
}

#[test]
fn advancing_in_parts_runs_the_same_commands() {
    let mut whole = Dispatcher::new(RecordingSink::new());
    let mut parts = Dispatcher::new(RecordingSink::new());
    for dispatcher in [&mut whole, &mut parts] {
        for line in ["4:d", "1:a", "3:c", "9:i"] {
            dispatcher.enqueue_from_pipe(line).unwrap();
        }
    }
    whole.advance_to(5);
    parts.advance_to(3);
    parts.advance_to(5);
    let runs = |log: Vec<String>| -> Vec<String> {
        log.into_iter().filter(|l| l.starts_with('x')).collect()
    };
    assert_eq!(runs(log(&whole)), runs(log(&parts)));
}

#[test]
fn a_bad_pipe_line_changes_nothing() {
    let mut dispatcher = Dispatcher::new(RecordingSink::new());
    assert!(dispatcher.enqueue_from_pipe("soon:go").is_err());
    dispatcher.advance_to(100);
    assert_eq!(log(&dispatcher), vec!["t100"]);
}

#[test]
fn a_dispatcher_knows_what_fits() {
    let dispatcher = Dispatcher::new_with_tick_rate(RecordingSink::new(), u64::MAX - 10, 5);
    assert!(dispatcher.can_step(10));
    assert!(!dispatcher.can_step(11));
    assert!(dispatcher.can_run(2));
    assert!(!dispatcher.can_run(3));
    assert!(!dispatcher.can_run(u64::MAX));
}
