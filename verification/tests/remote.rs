use timesimulation::forward::{forward_read, ForwardAction};
use timesimulation::remote::{decide_remote, take_remote_line, RemoteAction};
use timesimulation::repl::{parse_repl_command, serialize_repl_command, ReplCommand};
use timesimulation::windows_pipe::PipeEvent;
use timesimulation::{CommandPayload, ScheduledCommand};

fn arrived(typed: &str) -> PipeEvent {
    let command = parse_repl_command(typed).unwrap();
    let line = serialize_repl_command(&command).unwrap();
    match forward_read(Some(&line)) {
        ForwardAction::Emit { event, reply: None } => event,
        other => panic!("unexpected action {other:?} for {typed}"),
    }
}

#[test]
fn typed_commands_arrive_as_the_events_they_ask_for() {
    let go = PipeEvent::Scheduled(ScheduledCommand {
        timestamp: 6,
        command: CommandPayload::raw("start now"),
    });
    for (typed, event) in [
        ("start", PipeEvent::Start),
        (" STOP", PipeEvent::Stop),
        ("tick", PipeEvent::Tick),
        ("step 0", PipeEvent::Step(0)),
        ("advance 18446744073709551615", PipeEvent::Advance(u64::MAX)),
        ("run 12", PipeEvent::RunTicks(12)),
        ("rate 3", PipeEvent::SetRate(3)),
        ("now", PipeEvent::Now),
        ("enqueue 6 start now", go.clone()),
        ("pipe  6 : start now ", go),
    ] {
        assert_eq!(arrived(typed), event);
    }
}

#[test]
fn what_concerns_the_client_alone_is_not_sent() {
    for typed in ["help", "quit", "exit"] {
        assert!(serialize_repl_command(&parse_repl_command(typed).unwrap()).is_none());
    }
}

#[test]
fn the_remote_client_sends_what_can_be_sent() {
    match take_remote_line(" Step 4 ") {
        RemoteAction::Send(line) => assert_eq!(line, "step 4"),
        other => panic!("unexpected action {other:?}"),
    }
    match take_remote_line("warp") {
        RemoteAction::Complain(message) => assert_eq!(message, "unknown command 'warp'"),
        other => panic!("unexpected action {other:?}"),
    }
    assert!(matches!(take_remote_line("help"), RemoteAction::Help));
    assert!(matches!(take_remote_line("exit"), RemoteAction::Quit));
    match decide_remote(Ok(ReplCommand::PipeLine("1:x".to_string()))) {
        RemoteAction::Send(line) => assert_eq!(line, "1:x"),
        other => panic!("unexpected action {other:?}"),
    }
}
