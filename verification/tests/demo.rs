use timesimulation::demo::{
    announce_waiting_line, apply_demo_request, demo_allowed, interpret_demo_control, pipe_path, read_demo_request,
    take_waiting_line, waiting_allowed, DemoRequest, Notice,
};
use timesimulation::sink::{
    can_scale, log_execution, log_scaled_execution, log_time, show_execution, show_time, Recorded,
    RecordingSink,
};
use timesimulation::windows_pipe::{ControlParseResult, PipeEvent};
use timesimulation::{CommandPayload, CommandSink, Dispatcher, ScheduledCommand};

fn command(timestamp: u64, text: &str) -> ScheduledCommand {
    ScheduledCommand {
        timestamp,
        command: CommandPayload::raw(text),
    }
}

fn told(notice: &Notice) -> &str {
    match notice {
        Notice::Quiet => "",
        Notice::Say(line) => line,
        Notice::Complain(line) => line,
    }
}

fn log(dispatcher: &Dispatcher<RecordingSink>) -> Vec<String> {
    dispatcher
        .sink()
        .record()
        .iter()
        .map(|call| match call {
            Recorded::Published(time) => log_time(*time),
            Recorded::Executed(command) => log_scaled_execution(command),
        })
        .collect()
}

#[test]
fn logging_sink_forwards_messages_to_channel() {
    let (sender, receiver) = std::sync::mpsc::channel();
    let mut sink = RecordingSink::new();

    sink.publish_time(5);
    sink.execute(&command(3, "demo"));
    for call in sink.record() {
        let line = match call {
            Recorded::Published(time) => log_time(*time),
            Recorded::Executed(command) => log_scaled_execution(command),
        };
        sender.send(line).unwrap();
    }

    let first = receiver
        .try_recv()
        .expect("publish_time should emit a message");
    assert_eq!(first, "[sim-time] 5");

    let second = receiver.try_recv().expect("execute should emit a message");
    assert_eq!(second, "[execute @3] demo");
}

#[test]
fn the_demo_runs_both_of_its_commands() {
    let mut dispatcher = Dispatcher::new_with_tick_rate(RecordingSink::new(), 0, 2);
    dispatcher.enqueue_from_pipe("2:demo-command").unwrap();
    dispatcher.enqueue_from_pipe("3:scale-time").unwrap();
    dispatcher.run_for_ticks(4);
    assert_eq!(
        log(&dispatcher),
        vec![
            "[sim-time] 2",
            "[execute @2] demo-command",
            "[sim-time] 4",
            "[execute @3] scale-time (scaled timestamp: 12)",
            "[sim-time] 6",
            "[sim-time] 8",
        ]
    );
}

#[test]
fn lines_are_rendered_for_log_and_console() {
    assert_eq!(log_execution(&command(7, "scale-time")), "[execute @7] scale-time");
    assert_eq!(log_scaled_execution(&command(7, "other")), "[execute @7] other");
    assert_eq!(show_time(12), "[time] 12");
    assert_eq!(show_execution(&command(12, "a b")), "[exec @12] a b");
    assert!(can_scale(&command(u64::MAX, "other")));
    assert!(can_scale(&command(u64::MAX / 4, "scale-time")));
    assert!(!can_scale(&command(u64::MAX / 4 + 1, "scale-time")));
}

#[test]
fn pipe_paths_carry_the_prefix() {
    assert_eq!(pipe_path("timesimulation-demo"), r"\\.\\pipe\\timesimulation-demo");
}

#[test]
fn demo_lines_are_told_apart() {
    assert!(matches!(read_demo_request("  "), DemoRequest::Ignore));
    assert!(matches!(read_demo_request("PIPE: "), DemoRequest::UnnamedPipe));
    match read_demo_request(" Pipe: Other-Name ") {
        DemoRequest::SwitchPipe(name) => assert_eq!(name, "other-name"),
        other => panic!("unexpected request {other:?}"),
    }
    match read_demo_request("rate:4") {
        DemoRequest::Control(event) => assert_eq!(event, PipeEvent::SetRate(4)),
        other => panic!("unexpected request {other:?}"),
    }
    match read_demo_request("{\"jsonrpc\":\"2.0\",\"id\":1,\"method\":\"tick\"}") {
        DemoRequest::Control(event) => assert_eq!(event, PipeEvent::Tick),
        other => panic!("unexpected request {other:?}"),
    }
    match read_demo_request("{\"jsonrpc\":\"2.0\",\"id\":1,\"method\":\"warp\"}") {
        DemoRequest::Refused(complaint) => assert_eq!(
            complaint,
            "failed to parse control instruction '{\"jsonrpc\":\"2.0\",\"id\":1,\"method\":\"warp\"}': method not found: 'warp'"
        ),
        other => panic!("unexpected request {other:?}"),
    }
    match read_demo_request("rate:0") {
        DemoRequest::Refused(complaint) => assert_eq!(
            complaint,
            "failed to parse control instruction 'rate:0': tick rate must be greater than zero"
        ),
        other => panic!("unexpected request {other:?}"),
    }
    match read_demo_request(" 5:go ") {
        DemoRequest::Schedule(line) => assert_eq!(line, "5:go"),
        other => panic!("unexpected request {other:?}"),
    }
    let scheduled = ControlParseResult::Event(Some(PipeEvent::Scheduled(command(1, "x"))));
    assert!(matches!(
        interpret_demo_control("1:x", Ok(scheduled)),
        DemoRequest::Schedule(_)
    ));
}

#[test]
fn the_demo_answers_every_request() {
    let mut dispatcher = Dispatcher::new_with_tick_rate(RecordingSink::new(), 0, 2);
    let mut ticking = true;
    let mut notices = Vec::new();
    for line in [
        "3:a",
        "stop",
        "4:b",
        "tick",
        "run 1",
        "rate 5",
        "start",
        "9:c",
        "step 1",
        "advance 20",
        "now",
        "oops",
        "pipe:",
        "pipe:next",
        "",
    ] {
        let request = read_demo_request(line);
        assert!(demo_allowed(&dispatcher, ticking, &request));
        let report = apply_demo_request(&mut dispatcher, ticking, request);
        ticking = report.ticking;
        notices.push(told(&report.notice).to_string());
    }
    assert_eq!(
        notices,
        vec![
            "",
            "ticking paused; commands will queue until 'start'",
            "queued without ticking: 4:b",
            "executed single tick",
            "ran 1 tick(s)",
            "tick rate updated to 5",
            "ticking resumed; enqueueing will trigger ticks",
            "",
            "advanced clock by 1",
            "advanced clock to 20",
            "[sim-time] 20",
            "failed to parse pipe line 'oops': missing separator ':' in instruction",
            "pipe control requires a name after 'pipe:'",
            "switching to new pipe name: next",
            "",
        ]
    );
    assert!(ticking);
    assert_eq!(
        log(&dispatcher),
        vec![
            "[sim-time] 2",
            "[sim-time] 4",
            "[execute @3] a",
            "[execute @4] b",
            "[sim-time] 6",
            "[sim-time] 11",
            "[execute @9] c",
            "[sim-time] 12",
            "[sim-time] 20",
        ]
    );
}

#[test]
fn the_demo_knows_what_it_cannot_do() {
    let dispatcher = Dispatcher::new(RecordingSink::new());
    assert!(demo_allowed(&dispatcher, true, &DemoRequest::Ignore));
    let late = Dispatcher::new_with_clock(RecordingSink::new(), u64::MAX);
    let schedule = DemoRequest::Schedule("1:x".to_string());
    assert!(!demo_allowed(&late, true, &schedule));
    assert!(demo_allowed(&late, false, &schedule));
    assert!(demo_allowed(&late, true, &DemoRequest::Schedule("x".to_string())));
    assert!(!demo_allowed(&late, true, &DemoRequest::Control(PipeEvent::Tick)));
    assert!(!waiting_allowed(&late, false, "start"));
    assert!(waiting_allowed(&late, false, "1:x"));
    assert!(!waiting_allowed(&late, true, "1:x"));
    assert!(waiting_allowed(&late, true, "start"));
}

#[test]
fn nothing_runs_before_the_start_signal() {
    let mut dispatcher = Dispatcher::new_with_tick_rate(RecordingSink::new(), 0, 1);
    let mut started = false;
    let mut notices = Vec::new();
    for line in ["4:prepare", "", "bad", "8:execute", " START ", "12:cleanup", "start"] {
        if !started && line != " START " {
            assert!(log(&dispatcher).is_empty());
        }
        assert!(waiting_allowed(&dispatcher, started, line));
        let announced = told(&announce_waiting_line(started, line)).to_string();
        assert_eq!(announced.is_empty(), started || line != " START ");
        let report = take_waiting_line(&mut dispatcher, started, line);
        started = report.started;
        notices.push(announced + told(&report.notice));
    }
    assert!(started);
    assert_eq!(
        notices,
        vec![
            "queued command without ticking: 4:prepare",
            "",
            "failed to parse pipe line 'bad': missing separator ':' in instruction",
            "queued command without ticking: 8:execute",
            "starting dispatcher ticks",
            "",
            "start signal received again; already ticking after enqueues",
        ]
    );
    assert_eq!(log(&dispatcher), vec!["[sim-time] 1", "[sim-time] 2"]);
}
