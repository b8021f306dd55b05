use timesimulation::repl::ReplCommand;
use timesimulation::session::{
    apply_command, apply_event, command_allowed, fits, interval_passed, ReplAction,
};
use timesimulation::sink::{Recorded, RecordingSink};
use timesimulation::windows_pipe::PipeEvent;
use timesimulation::{CommandPayload, Dispatcher, ScheduledCommand};

fn times(dispatcher: &Dispatcher<RecordingSink>) -> Vec<u64> {
    let mut times = Vec::new();
    for call in dispatcher.sink().record() {
        if let Recorded::Published(time) = call {
            times.push(*time);
        }
    }
    times
}

fn executed(dispatcher: &Dispatcher<RecordingSink>) -> Vec<String> {
    let mut texts = Vec::new();
    for call in dispatcher.sink().record() {
        if let Recorded::Executed(command) = call {
            texts.push(command.command.to_string());
        }
    }
    texts
}

#[test]
fn queue_forwarder_applies_pipe_events() {
    // Arrange
    let mut dispatcher = Dispatcher::new_with_tick_rate(RecordingSink::new(), 0, 2);
    let mut ticking = false;

    // Act
    let events = vec![
        PipeEvent::Scheduled(ScheduledCommand {
            timestamp: 2,
            command: CommandPayload::raw("mission"),
        }),
        PipeEvent::Start,
        PipeEvent::Tick,
        PipeEvent::Step(3),
        PipeEvent::Advance(10),
        PipeEvent::RunTicks(1),
        PipeEvent::Stop,
    ];
    let mut messages = Vec::new();
    for event in events {
        assert!(fits(&dispatcher, &event));
        let report = apply_event(&mut dispatcher, event);
        ticking = report.ticking.unwrap_or(ticking);
        messages.extend(report.message);
    }

    // Assert
    assert!(!ticking, "ticking should be disabled after stop");
    assert_eq!(times(&dispatcher), vec![2, 5, 10, 12]);
    assert_eq!(executed(&dispatcher).len(), 1);
    assert_eq!(executed(&dispatcher)[0], "mission");
    assert_eq!(
        messages,
        vec![
            "ticking started (pipe)",
            "performed single tick at rate 2 (pipe)",
            "advanced clock by 3 without changing tick rate (pipe)",
            "advanced clock to 10 (pipe)",
            "ran 1 tick(s) at rate 2; current time: 12 (pipe)",
            "ticking stopped (pipe)",
        ]
    );
}

#[test]
fn other_events_report_themselves() {
    let mut dispatcher = Dispatcher::new_with_clock(RecordingSink::new(), 4);
    let report = apply_event(&mut dispatcher, PipeEvent::SetRate(9));
    assert_eq!(report.message.as_deref(), Some("tick rate updated to 9 (pipe)"));
    assert_eq!(dispatcher.tick_rate(), 9);
    let report = apply_event(&mut dispatcher, PipeEvent::Now);
    assert_eq!(report.message.as_deref(), Some("current simulated time: 4 (pipe)"));
    assert_eq!(report.ticking, None);
    let report = apply_event(
        &mut dispatcher,
        PipeEvent::AddFileNote {
            file: "a.txt".to_string(),
            note: "done".to_string(),
        },
    );
    assert_eq!(
        report.message.as_deref(),
        Some("received file note for a.txt: done (pipe)")
    );
    for event in [PipeEvent::Pause, PipeEvent::Disconnected] {
        let report = apply_event(&mut dispatcher, event);
        assert_eq!(report.ticking, Some(false));
        assert_eq!(report.message.as_deref(), Some("ticking stopped (pipe)"));
    }
    assert!(times(&dispatcher).is_empty());
}

#[test]
fn events_that_do_not_fit_are_known() {
    let dispatcher = Dispatcher::new_with_tick_rate(RecordingSink::new(), u64::MAX - 1, 2);
    assert!(!fits(&dispatcher, &PipeEvent::Tick));
    assert!(fits(&dispatcher, &PipeEvent::Step(1)));
    assert!(!fits(&dispatcher, &PipeEvent::Step(2)));
    assert!(!fits(&dispatcher, &PipeEvent::RunTicks(1)));
    assert!(fits(&dispatcher, &PipeEvent::RunTicks(0)));
    assert!(!fits(&dispatcher, &PipeEvent::SetRate(0)));
    assert!(fits(&dispatcher, &PipeEvent::Advance(u64::MAX)));
    assert!(!command_allowed(&dispatcher, &ReplCommand::Tick));
    assert!(!command_allowed(&dispatcher, &ReplCommand::SetRate(0)));
    assert!(command_allowed(&dispatcher, &ReplCommand::Quit));
}

#[test]
fn an_interval_ticks_only_while_ticking_is_on() {
    let mut dispatcher = Dispatcher::new_with_tick_rate(RecordingSink::new(), 0, 5);
    interval_passed(&mut dispatcher, false);
    assert_eq!(dispatcher.now(), 0);
    interval_passed(&mut dispatcher, true);
    interval_passed(&mut dispatcher, true);
    assert_eq!(times(&dispatcher), vec![5, 10]);
}

#[test]
fn commands_of_the_user_are_carried_out_and_reported() {
    let mut dispatcher = Dispatcher::new_with_tick_rate(RecordingSink::new(), 0, 2);
    let mut told = Vec::new();
    for command in [
        ReplCommand::Start,
        ReplCommand::Tick,
        ReplCommand::Step(3),
        ReplCommand::Advance(4),
        ReplCommand::RunTicks(2),
        ReplCommand::SetRate(7),
        ReplCommand::Now,
        ReplCommand::Stop,
    ] {
        match apply_command(&mut dispatcher, command, "1s") {
            ReplAction::Report { ticking, message } => told.push((ticking, message)),
            other => panic!("unexpected action {other:?}"),
        }
    }
    let expected = [
        (Some(true), "ticking started (interval: 1s)"),
        (None, "performed single tick at rate 2"),
        (None, "advanced clock by 3 without changing tick rate"),
        (None, "advanced clock to 4"),
        (None, "ran 2 tick(s) at rate 2; current time: 9"),
        (None, "tick rate updated to 7"),
        (None, "current simulated time: 9"),
        (Some(false), "ticking stopped"),
    ];
    for ((ticking, message), (expected_ticking, expected_message)) in told.into_iter().zip(expected) {
        assert_eq!(ticking, expected_ticking);
        assert_eq!(message, expected_message);
    }
    assert_eq!(times(&dispatcher), vec![2, 5, 5, 7, 9]);
}

#[test]
fn commands_to_schedule_wait_in_the_queue() {
    let mut dispatcher = Dispatcher::new(RecordingSink::new());
    let scheduled = ScheduledCommand {
        timestamp: 0,
        command: CommandPayload::raw("go"),
    };
    let queued = apply_command(&mut dispatcher, ReplCommand::Enqueue(scheduled.clone()), "1s");
    match queued {
        ReplAction::Queue(event) => assert_eq!(event, PipeEvent::Scheduled(scheduled.clone())),
        other => panic!("unexpected action {other:?}"),
    }
    let line = ReplCommand::PipeLine(" 0 : go".to_string());
    match apply_command(&mut dispatcher, line, "1s") {
        ReplAction::Queue(event) => assert_eq!(event, PipeEvent::Scheduled(scheduled)),
        other => panic!("unexpected action {other:?}"),
    }
    match apply_command(&mut dispatcher, ReplCommand::PipeLine("go".to_string()), "1s") {
        ReplAction::Complain(message) => assert_eq!(
            message,
            "failed to parse pipe line: missing separator ':' in instruction"
        ),
        other => panic!("unexpected action {other:?}"),
    }
    assert!(matches!(
        apply_command(&mut dispatcher, ReplCommand::Help, "1s"),
        ReplAction::Help
    ));
    assert!(matches!(
        apply_command(&mut dispatcher, ReplCommand::Quit, "1s"),
        ReplAction::Quit
    ));
    dispatcher.step(0);
    assert!(executed(&dispatcher).is_empty());
}
