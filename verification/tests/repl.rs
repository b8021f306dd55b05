use timesimulation::repl::{
    interpret_command, parse_repl_command, serialize_repl_command, ReplCommand,
};
use timesimulation::{CommandPayload, ScheduledCommand};

#[test]
fn parse_repl_command_handles_valid_and_invalid_inputs() {
    // Arrange
    let valid_cases = vec![
        (" start  ", ReplCommand::Start),
        ("stop", ReplCommand::Stop),
        ("tick", ReplCommand::Tick),
        ("step 5", ReplCommand::Step(5)),
        ("advance 42", ReplCommand::Advance(42)),
        ("run 3", ReplCommand::RunTicks(3)),
        ("rate 7", ReplCommand::SetRate(7)),
        (
            "enqueue 9 launch",
            ReplCommand::Enqueue(ScheduledCommand {
                timestamp: 9,
                command: CommandPayload::raw("launch"),
            }),
        ),
        ("pipe 4:cmd", ReplCommand::PipeLine("4:cmd".to_string())),
        ("now", ReplCommand::Now),
        ("help", ReplCommand::Help),
        ("quit", ReplCommand::Quit),
        ("exit", ReplCommand::Quit),
    ];

    // Act
    let parsed_valid: Vec<_> = valid_cases
        .iter()
        .map(|(input, _)| parse_repl_command(input).unwrap())
        .collect();

    // Assert
    for ((_, expected), actual) in valid_cases.into_iter().zip(parsed_valid) {
        assert_eq!(actual, expected);
    }

    // Arrange
    let invalid_cases = vec![
        ("", "empty input"),
        ("unknown", "unknown command 'unknown'"),
        ("step x", "usage: step <non-negative delta>"),
        ("advance", "usage: advance <target timestamp>"),
        ("run -1", "usage: run <number of ticks>"),
        ("rate 0", "tick rate must be greater than zero"),
        ("enqueue 5", "usage: enqueue <timestamp> <command>"),
        ("pipe  ", "usage: pipe <timestamp:command>"),
    ];

    // Act & Assert
    for (input, expected_message) in invalid_cases {
        let error = parse_repl_command(input).expect_err("case should fail");
        assert_eq!(error, expected_message);
    }
}

#[test]
fn more_inputs_that_do_not_fit() {
    for (input, message) in [
        ("   \t ", "empty input"),
        ("WARP 9", "unknown command 'warp'"),
        ("rate", "usage: rate <non-zero u64>"),
        ("rate 18446744073709551616", "usage: rate <non-zero u64>"),
        ("step 1 2", "usage: step <non-negative delta>"),
        ("run ", "usage: run <number of ticks>"),
        ("enqueue", "timestamp must be a non-negative integer"),
        ("enqueue x y", "timestamp must be a non-negative integer"),
        ("enqueue  7 go", "timestamp must be a non-negative integer"),
        ("enqueue 7  ", "usage: enqueue <timestamp> <command>"),
    ] {
        assert_eq!(parse_repl_command(input), Err(message.to_string()));
    }
}

#[test]
fn case_and_outer_whitespace_are_ignored() {
    assert_eq!(parse_repl_command("  StArT\n"), Ok(ReplCommand::Start));
    assert_eq!(parse_repl_command("RATE   4 "), Ok(ReplCommand::SetRate(4)));
    assert_eq!(
        parse_repl_command("Enqueue 3  Two  Words "),
        Ok(ReplCommand::Enqueue(ScheduledCommand {
            timestamp: 3,
            command: CommandPayload::raw("Two  Words"),
        }))
    );
}

#[test]
fn letters_beyond_ascii_are_lowered_as_well() {
    // The Kelvin sign is lowered to a plain `k`.
    assert_eq!(parse_repl_command("TIC\u{212a}"), Ok(ReplCommand::Tick));
    assert_eq!(parse_repl_command("tIc\u{212a}"), Ok(ReplCommand::Tick));
    assert_eq!(
        parse_repl_command("A\u{3a3} x"),
        parse_repl_command("a\u{3a3} x")
    );
    assert_eq!(
        parse_repl_command("\u{c9}TAPE 1"),
        Err("unknown command '\u{e9}tape'".to_string())
    );
}

#[test]
fn arguments_are_not_read_where_none_are_taken() {
    assert_eq!(parse_repl_command("stop it now"), Ok(ReplCommand::Stop));
    assert_eq!(interpret_command("quit", "at once"), Ok(ReplCommand::Quit));
    assert_eq!(interpret_command("step", " 8 "), Ok(ReplCommand::Step(8)));
    assert_eq!(
        interpret_command("Step", "8"),
        Err("unknown command 'Step'".to_string())
    );
}

#[test]
fn commands_are_written_as_the_listener_reads_them() {
    let cases = [
        (ReplCommand::Start, Some("start")),
        (ReplCommand::Stop, Some("stop")),
        (ReplCommand::Tick, Some("tick")),
        (ReplCommand::Step(5), Some("step 5")),
        (ReplCommand::Advance(u64::MAX), Some("advance 18446744073709551615")),
        (ReplCommand::RunTicks(0), Some("run 0")),
        (ReplCommand::SetRate(10), Some("rate 10")),
        (
            ReplCommand::Enqueue(ScheduledCommand {
                timestamp: 9,
                command: CommandPayload::raw("launch it"),
            }),
            Some("9:launch it"),
        ),
        (ReplCommand::PipeLine("4:cmd".to_string()), Some("4:cmd")),
        (ReplCommand::Now, Some("now")),
        (ReplCommand::Help, None),
        (ReplCommand::Quit, None),
    ];
    for (command, line) in cases {
        assert_eq!(serialize_repl_command(&command).as_deref(), line);
    }
}

#[test]
fn sent_words_parse_back() {
    for command in [
        ReplCommand::Start,
        ReplCommand::Stop,
        ReplCommand::Tick,
        ReplCommand::Now,
        ReplCommand::Step(0),
        ReplCommand::Advance(u64::MAX),
        ReplCommand::RunTicks(30),
        ReplCommand::SetRate(1),
    ] {
        let line = serialize_repl_command(&command).unwrap();
        assert_eq!(parse_repl_command(&line), Ok(command));
    }
}
