use std::io;

use timesimulation::pipe::accept_line;
use timesimulation::{parse_pipe_line, read_pipe_commands, PipeCommand, PipeParseError};

#[test]
fn parses_pipe_lines_with_whitespace() {
    let parsed = parse_pipe_line(" 42 : go ").expect("parse should succeed");
    assert_eq!(parsed.timestamp, 42);
    assert_eq!(parsed.command.as_str(), "go");
}

#[test]
fn rejects_missing_separator() {
    let err = parse_pipe_line("42 go").unwrap_err();
    assert!(matches!(err, PipeParseError::MissingSeparator));
    assert_eq!(err.to_string(), "missing separator ':' in instruction");
}

#[test]
fn reads_commands_from_pipe_file() {
    let text = format!("{}\n{}\n", "1:first", "2:second");
    let reads: Vec<io::Result<String>> = text.lines().map(|l| Ok(l.to_string())).collect();

    let commands = read_pipe_commands(reads).expect("reading should succeed");
    assert_eq!(commands.len(), 2);
    assert_eq!(commands[0].command.as_str(), "first");
    assert_eq!(commands[1].timestamp, 2);
}

#[test]
fn rejects_timestamps_that_are_no_unsigned_integers() {
    for (line, stamp) in [
        ("x:go", "x"),
        (":go", ""),
        (" -1 :go", "-1"),
        ("1 2:go", "1 2"),
        ("18446744073709551616:go", "18446744073709551616"),
        ("+:go", "+"),
    ] {
        match parse_pipe_line(line) {
            Err(PipeParseError::InvalidTimestamp(found)) => assert_eq!(found, stamp),
            other => panic!("unexpected outcome {other:?}"),
        }
    }
    let err = parse_pipe_line("x:go").unwrap_err();
    assert_eq!(err.to_string(), "invalid timestamp: x");
}

#[test]
fn takes_the_edges_of_the_timestamp_range() {
    let last = parse_pipe_line("18446744073709551615:end").unwrap();
    assert_eq!(last.timestamp, u64::MAX);
    let signed = parse_pipe_line("+007:").unwrap();
    assert_eq!(signed.timestamp, 7);
    assert_eq!(signed.command.as_str(), "");
}

#[test]
fn only_the_first_colon_separates() {
    let parsed = parse_pipe_line("3:a:b : c").unwrap();
    assert_eq!(parsed.command.as_str(), "a:b : c");
    assert_eq!(parsed.clone(), parsed);
    let scheduled = parsed.into_scheduled();
    assert_eq!(scheduled.timestamp, 3);
    assert_eq!(scheduled.command.as_str(), "a:b : c");
}

#[test]
fn unicode_whitespace_is_dropped_as_well() {
    let parsed = parse_pipe_line("\u{3000}5\u{a0}:\u{2003}go\u{85}").unwrap();
    assert_eq!(
        parsed,
        PipeCommand {
            timestamp: 5,
            command: "go".into()
        }
    );
}

#[test]
fn a_written_line_reads_back() {
    for timestamp in [0, 9, 10, 12345, u64::MAX] {
        let parsed = parse_pipe_line(&format!("{timestamp}:do it")).unwrap();
        assert_eq!(parsed.timestamp, timestamp);
        assert_eq!(parsed.command.as_str(), "do it");
    }
}

#[test]
fn the_first_bad_line_ends_the_reading() {
    let reads: Vec<io::Result<String>> = vec![
        Ok("1:first".to_string()),
        Ok("second".to_string()),
        Ok("x:third".to_string()),
    ];
    assert!(matches!(
        read_pipe_commands(reads),
        Err(PipeParseError::MissingSeparator)
    ));
}

#[test]
fn the_first_failed_read_ends_the_reading() {
    let reads = vec![
        Ok("1:first".to_string()),
        Err(io::Error::new(io::ErrorKind::Other, "gone")),
        Ok("second".to_string()),
    ];
    match read_pipe_commands(reads) {
        Err(PipeParseError::Io(error)) => {
            assert_eq!(PipeParseError::Io(error).to_string(), "gone");
        }
        other => panic!("unexpected outcome {other:?}"),
    }
    assert!(read_pipe_commands(Vec::new()).unwrap().is_empty());
}

#[test]
fn lines_are_accepted_one_by_one() {
    let mut commands = Vec::new();
    accept_line(&mut commands, "4: a ").unwrap();
    assert!(accept_line(&mut commands, "nothing").is_err());
    accept_line(&mut commands, "2:b").unwrap();
    let texts: Vec<&str> = commands.iter().map(|c| c.command.as_str()).collect();
    assert_eq!(texts, vec!["a", "b"]);
}
