use std::io;
use std::io::{BufRead, BufReader};
use std::sync::{Arc, Mutex};

use timesimulation::client::{count_ticks, feed_line};
use timesimulation::sink::RecordingSink;
use timesimulation::{
    ClientError, CommandSink, Dispatcher, PipeParseError, ScheduledCommand, SimulationClient,
};

#[derive(Debug, Default)]
struct SplitSink {
    times: Vec<u64>,
    executed: Vec<ScheduledCommand>,
}

#[derive(Clone, Debug, Default)]
struct SharedSink(Arc<Mutex<SplitSink>>);

impl SharedSink {
    fn new() -> Self {
        Self(Arc::new(Mutex::new(SplitSink::default())))
    }

    fn lock(&self) -> std::sync::MutexGuard<'_, SplitSink> {
        self.0.lock().unwrap()
    }

    fn executed(&self) -> Vec<(u64, String)> {
        self.lock()
            .executed
            .iter()
            .map(|cmd| (cmd.timestamp, cmd.command.to_string()))
            .collect()
    }
}

impl CommandSink for SharedSink {
    fn publish_time(&mut self, time: u64) {
        if let Ok(mut guard) = self.0.lock() {
            guard.times.push(time);
        }
    }

    fn execute(&mut self, command: &ScheduledCommand) {
        if let Ok(mut guard) = self.0.lock() {
            guard.executed.push(command.clone());
        }
    }
}

fn line_reads<R: BufRead>(mut reader: R) -> Vec<io::Result<String>> {
    let mut reads = Vec::new();
    loop {
        let mut line = String::new();
        match reader.read_line(&mut line) {
            Ok(0) => return reads,
            Ok(_) => reads.push(Ok(line)),
            Err(error) => reads.push(Err(error)),
        }
    }
}

#[test]
fn in_memory_transport_executes_when_running() {
    let sink = SharedSink::new();
    let dispatcher = Dispatcher::new(sink.clone());
    let mut client = SimulationClient::from_dispatcher(dispatcher);

    client.connect().unwrap();
    client.start().unwrap();
    client
        .enqueue_command(3, "fire".to_string())
        .expect("enqueue should succeed");
    client.stop().unwrap();

    let guard = sink.lock();
    assert_eq!(guard.times, vec![3]);
    assert_eq!(guard.executed.len(), 1);
    assert_eq!(guard.executed[0].command.as_str(), "fire");
}

#[test]
fn pipe_transport_consumes_buffered_lines() {
    let sink = SharedSink::new();
    let dispatcher = Dispatcher::new(sink.clone());
    let input = io::Cursor::new("1:first\n2:second\n");
    let reader = BufReader::new(input);
    let mut client = SimulationClient::from_pipe_reader(dispatcher, line_reads(reader));

    client.connect().unwrap();
    client.start().unwrap();

    let guard = sink.lock();
    assert_eq!(guard.times, vec![1, 2]);
    assert_eq!(guard.executed.len(), 2);
    assert_eq!(guard.executed[0].command.as_str(), "first");
}

#[test]
fn connecting_and_starting_dispatcher_executes_enqueued_commands() {
    let sink = SharedSink::new();
    let dispatcher = Dispatcher::new(sink.clone());
    let mut client = SimulationClient::from_dispatcher(dispatcher);

    client.connect().expect("connect should succeed");

    // Commands enqueued before starting should remain pending until the
    // dispatcher is marked as running.
    client
        .enqueue_command(2, "pending".to_string())
        .expect("enqueue should succeed");
    assert!(sink.lock().times.is_empty());

    client.start().expect("start should succeed");
    client
        .enqueue_command(1, "first".to_string())
        .expect("enqueue after start should succeed");
    client
        .enqueue_command(3, "second".to_string())
        .expect("enqueue after start should succeed");

    assert_eq!(sink.lock().times, vec![1, 3]);
    assert_eq!(
        sink.executed(),
        vec![
            (1, "first".to_string()),
            (2, "pending".to_string()),
            (3, "second".to_string())
        ],
    );
}

#[test]
fn set_tick_rate_updates_progression_for_pipe_transport() {
    let sink = SharedSink::new();
    let dispatcher = Dispatcher::new(sink.clone());
    let cursor = std::io::Cursor::new("1:first\n2:second\n");
    let reader = BufReader::new(cursor);
    let mut client = SimulationClient::from_pipe_reader(dispatcher, line_reads(reader));

    client.connect().expect("connect should succeed");
    client
        .set_tick_rate(3)
        .expect("tick rate update should succeed");
    client.start().expect("start should succeed");

    assert_eq!(sink.lock().times, vec![3, 6]);
    assert_eq!(
        sink.executed(),
        vec![(1, "first".to_string()), (2, "second".to_string())],
    );
}

#[test]
fn repl_style_enqueues_execute_in_timestamp_order() {
    let sink = SharedSink::new();
    let dispatcher = Dispatcher::new_with_tick_rate(sink.clone(), 0, 1);
    let mut client = SimulationClient::from_dispatcher(dispatcher);

    client.connect().expect("connect should succeed");
    client.start().expect("start should succeed");

    // Enqueue commands in the same order a REPL user would enter them and
    // validate they execute sequentially as simulated time advances.
    client
        .enqueue_command(1, "first".to_string())
        .expect("enqueue should succeed");
    client
        .enqueue_command(2, "second".to_string())
        .expect("enqueue should succeed");
    client
        .enqueue_command(3, "third".to_string())
        .expect("enqueue should succeed");

    assert_eq!(sink.lock().times, vec![1, 2, 3]);
    assert_eq!(
        sink.executed(),
        vec![
            (1, "first".to_string()),
            (2, "second".to_string()),
            (3, "third".to_string()),
        ],
    );
}

#[test]
fn pipe_transport_propagates_invalid_commands() {
    let sink = SharedSink::new();
    let dispatcher = Dispatcher::new(sink.clone());
    let cursor = std::io::Cursor::new("invalid-line-without-colon\n");
    let reader = BufReader::new(cursor);
    let mut client = SimulationClient::from_pipe_reader(dispatcher, line_reads(reader));

    client.connect().expect("connect should succeed");
    let result = client.start();
    assert!(matches!(result, Err(ClientError::Pipe(_))));
    assert!(sink.lock().executed.is_empty());
}

#[test]
fn a_stopped_client_only_queues() {
    let sink = SharedSink::new();
    let mut client = SimulationClient::from_dispatcher(Dispatcher::new(sink.clone()));
    client.start().unwrap();
    client.stop().unwrap();
    client.enqueue_command(4, "wait".to_string()).unwrap();
    assert!(sink.lock().times.is_empty());
    client.start().unwrap();
    client.enqueue_command(2, "go".to_string()).unwrap();
    assert_eq!(sink.executed(), vec![(2, "go".to_string())]);
    client.enqueue_command(1, "past".to_string()).unwrap();
    assert_eq!(sink.lock().times, vec![2, 2]);
    assert_eq!(
        sink.executed(),
        vec![(2, "go".to_string()), (1, "past".to_string())]
    );
}

#[test]
fn blank_lines_are_passed_over_and_line_ends_dropped() {
    let sink = SharedSink::new();
    let reads = line_reads("\n  \r\n1:a\r\n\t\n2: b".as_bytes());
    let mut client = SimulationClient::from_pipe_reader(Dispatcher::new(sink.clone()), reads);
    client.start().unwrap();
    assert_eq!(sink.lock().times, vec![1, 2]);
    assert_eq!(
        sink.executed(),
        vec![(1, "a".to_string()), (2, "b".to_string())]
    );
}

#[test]
fn a_start_goes_on_behind_the_line_that_failed() {
    let sink = SharedSink::new();
    let reads = line_reads(io::Cursor::new("1:a\nbad\n2:b\n"));
    assert_eq!(count_ticks(&reads), 1);
    let mut client = SimulationClient::from_pipe_reader(Dispatcher::new(sink.clone()), reads);
    match client.start() {
        Err(ClientError::Pipe(PipeParseError::MissingSeparator)) => {}
        other => panic!("unexpected outcome {other:?}"),
    }
    assert_eq!(sink.executed(), vec![(1, "a".to_string())]);
    client.start().unwrap();
    assert_eq!(
        sink.executed(),
        vec![(1, "a".to_string()), (2, "b".to_string())]
    );
}

#[test]
fn a_failed_read_is_handed_through() {
    let sink = SharedSink::new();
    let reads = vec![
        Ok("1:a\n".to_string()),
        Err(io::Error::new(io::ErrorKind::Other, "broken pipe")),
    ];
    let mut client = SimulationClient::from_pipe_reader(Dispatcher::new(sink.clone()), reads);
    match client.start() {
        Err(ClientError::Io(error)) => {
            assert_eq!(error.kind(), io::ErrorKind::Other);
            assert_eq!(ClientError::from(error).to_string(), "broken pipe");
        }
        other => panic!("unexpected outcome {other:?}"),
    }
    assert_eq!(sink.lock().times, vec![1]);
}

#[test]
fn reading_in_parts_is_reading_at_once() {
    let mut whole = Dispatcher::new_with_tick_rate(SharedSink::new(), 0, 2);
    let mut parts = Dispatcher::new_with_tick_rate(SharedSink::new(), 0, 2);
    let lines = ["3:c\n", "\n", "1:a\n", "2:b"];
    let all = SharedSink::new();
    let reads = lines.iter().map(|l| Ok(l.to_string())).collect();
    let mut client = SimulationClient::from_pipe_reader(
        Dispatcher::new_with_tick_rate(all.clone(), 0, 2),
        reads,
    );
    client.start().unwrap();
    for line in lines {
        feed_line(&mut whole, line).unwrap();
    }
    for line in &lines[..2] {
        feed_line(&mut parts, line).unwrap();
    }
    for line in &lines[2..] {
        feed_line(&mut parts, line).unwrap();
    }
    assert_eq!(all.executed(), whole.sink().executed());
    assert_eq!(whole.sink().executed(), parts.sink().executed());
    assert_eq!(whole.now(), 6);
}

#[test]
fn a_fed_line_queues_and_ticks() {
    let mut dispatcher = Dispatcher::new(RecordingSink::new());
    feed_line(&mut dispatcher, " \n").unwrap();
    assert_eq!(dispatcher.now(), 0);
    feed_line(&mut dispatcher, "9:later\n").unwrap();
    assert_eq!(dispatcher.now(), 1);
    let error = feed_line(&mut dispatcher, "x:y\n").unwrap_err();
    assert_eq!(error.to_string(), "invalid timestamp: x");
    assert_eq!(dispatcher.now(), 1);
}

#[test]
fn ticks_are_counted_up_to_the_first_fault() {
    let reads = |text: &str| -> Vec<io::Result<String>> {
        text.split_inclusive('\n').map(|l| Ok(l.to_string())).collect()
    };
    assert_eq!(count_ticks(&reads("")), 0);
    assert_eq!(count_ticks(&reads("1:a\n\n2:b\n")), 2);
    assert_eq!(count_ticks(&reads("1:a\nx\n2:b\n")), 1);
    let mut failing = reads("1:a\n2:b\n");
    failing.insert(1, Err(io::Error::new(io::ErrorKind::Other, "gone")));
    assert_eq!(count_ticks(&failing), 1);
}
