use timesimulation::forward::{forward_outcome, forward_read, ForwardAction};
use timesimulation::windows_pipe::{
    ControlParseError, ControlParseResult, JsonRpcErrorDetail, PipeEvent,
};
use timesimulation::{CommandPayload, ScheduledCommand};

fn emitted(line: &str) -> (PipeEvent, Option<String>) {
    match forward_read(Some(line)) {
        ForwardAction::Emit { event, reply } => (event, reply),
        other => panic!("unexpected action {other:?} for {line}"),
    }
}

fn replied(line: &str) -> String {
    match forward_read(Some(line)) {
        ForwardAction::Reply(reply) => reply,
        other => panic!("unexpected action {other:?} for {line}"),
    }
}

fn complained(line: &str) -> String {
    match forward_read(Some(line)) {
        ForwardAction::Complain(message) => message,
        other => panic!("unexpected action {other:?} for {line}"),
    }
}

#[test]
fn forward_commands_emits_control_and_schedule_events() {
    // Arrange
    let input = "{\"type\":\"start\"}\nstep 3\n4:launch\n";

    // Act
    let mut events = Vec::new();
    let mut replies = Vec::new();
    for line in input.lines() {
        let (event, reply) = emitted(line);
        events.push(event);
        replies.extend(reply);
    }

    // Assert
    assert_eq!(
        events,
        vec![
            PipeEvent::Start,
            PipeEvent::Step(3),
            PipeEvent::Scheduled(ScheduledCommand {
                timestamp: 4,
                command: CommandPayload::raw("launch"),
            }),
        ]
    );
    assert!(replies.is_empty());
    assert!(matches!(
        forward_read(None),
        ForwardAction::Finish(PipeEvent::Disconnected)
    ));
}

#[test]
fn forward_commands_writes_jsonrpc_responses() {
    // Arrange
    let input = "{\"jsonrpc\":\"2.0\",\"id\":1,\"method\":\"start\"}\n{\"jsonrpc\":\"2.0\",\"id\":2,\"method\":\"rate\",\"params\":{\"rate\":0}}\n";

    // Act
    let mut events = Vec::new();
    let mut responses = Vec::new();
    for line in input.lines() {
        match forward_read(Some(line)) {
            ForwardAction::Emit { event, reply } => {
                events.push(event);
                responses.extend(reply);
            }
            ForwardAction::Reply(reply) => responses.push(reply),
            other => panic!("unexpected action {other:?}"),
        }
    }

    // Assert
    assert_eq!(events, vec![PipeEvent::Start]);
    let success: serde_json::Value = serde_json::from_str(&responses[0]).unwrap();
    assert_eq!(success["jsonrpc"], "2.0");
    assert_eq!(success["id"], 1);
    assert_eq!(success["result"], "ok");
    let error: serde_json::Value = serde_json::from_str(&responses[1]).unwrap();
    assert_eq!(error["jsonrpc"], "2.0");
    assert_eq!(error["id"], 2);
    assert_eq!(error["error"]["code"], -32602);
}

#[test]
fn the_documented_exchanges_hold() {
    assert_eq!(
        emitted("{\"jsonrpc\":\"2.0\",\"id\":1,\"method\":\"start\"}"),
        (
            PipeEvent::Start,
            Some("{\"jsonrpc\":\"2.0\",\"id\":1,\"result\":\"ok\"}".to_string())
        )
    );
    assert_eq!(
        emitted("{\"jsonrpc\":\"2.0\",\"id\":2,\"method\":\"rate\",\"params\":{\"rate\":4}}"),
        (
            PipeEvent::SetRate(4),
            Some("{\"jsonrpc\":\"2.0\",\"id\":2,\"result\":\"ok\"}".to_string())
        )
    );
    assert_eq!(
        emitted("{\"jsonrpc\":\"2.0\",\"id\":3,\"method\":\"run\",\"params\":[10]}"),
        (
            PipeEvent::RunTicks(10),
            Some("{\"jsonrpc\":\"2.0\",\"id\":3,\"result\":\"ok\"}".to_string())
        )
    );
    assert_eq!(
        replied("{\"jsonrpc\":\"2.0\",\"id\":4,\"method\":\"warp\"}"),
        "{\"jsonrpc\":\"2.0\",\"id\":4,\"error\":{\"code\":-32601,\"message\":\"method not found: 'warp'\"}}"
    );
    assert_eq!(
        replied("{\"jsonrpc\":\"2.0\",\"id\":5,\"method\":\"rate\",\"params\":{\"rate\":0}}"),
        "{\"jsonrpc\":\"2.0\",\"id\":5,\"error\":{\"code\":-32602,\"message\":\"invalid params: tick rate must be greater than zero\"}}"
    );
    let refused = replied("{\"jsonrpc\":\"2.0\",\"id\":6,\"method\":42}");
    assert!(refused.starts_with(
        "{\"jsonrpc\":\"2.0\",\"id\":6,\"error\":{\"code\":-32600,\"message\":\"invalid JSON-RPC request: "
    ));
}

#[test]
fn notifications_are_not_answered() {
    assert_eq!(
        emitted("{\"jsonrpc\":\"2.0\",\"method\":\"stop\"}"),
        (PipeEvent::Stop, None)
    );
    assert!(matches!(
        forward_read(Some("{\"jsonrpc\":\"2.0\",\"method\":\"warp\"}")),
        ForwardAction::Ignore
    ));
}

#[test]
fn replies_stand_on_one_line_whatever_they_echo() {
    let reply = replied(
        "{\"jsonrpc\":\"2.0\",\"id\":\"a\\nb\",\"method\":\"line\\nbreak \\\"quoted\\\"\"}",
    );
    assert!(!reply.contains('\n'));
    let value: serde_json::Value = serde_json::from_str(&reply).unwrap();
    assert_eq!(value["id"], "a\nb");
    assert_eq!(
        value["error"]["message"],
        "method not found: 'line\nbreak \"quoted\"'"
    );
}

#[test]
fn error_messages_are_escaped() {
    assert_eq!(
        replied("{\"jsonrpc\":\"2.0\",\"id\":1,\"method\":\"\\\"\\\\\\b\\t\\n\\f\\r\\u0000\\u001f\\u007f\u{e9}/\"}"),
        "{\"jsonrpc\":\"2.0\",\"id\":1,\"error\":{\"code\":-32601,\"message\":\"method not found: '\\\"\\\\\\b\\t\\n\\f\\r\\u0000\\u001f\u{7f}\u{e9}/'\"}}"
    );
}

#[test]
fn lines_that_are_not_understood_are_complained_about() {
    assert_eq!(
        complained("  nonsense "),
        "failed to parse pipe line '  nonsense ': missing separator ':' in instruction"
    );
    assert_eq!(
        complained("x:y"),
        "failed to parse pipe line 'x:y': invalid timestamp: x"
    );
    assert_eq!(
        complained("rate 0"),
        "failed to parse control instruction 'rate 0': tick rate must be greater than zero"
    );
    assert_eq!(
        complained("{\"type\":\"start\",\"type\":\"stop\"}"),
        "failed to parse pipe line '{\"type\":\"start\",\"type\":\"stop\"}': invalid timestamp: {\"type\""
    );
}

#[test]
fn errors_can_carry_data() {
    let detail = JsonRpcErrorDetail {
        code: 7,
        message: "m".to_string(),
        data: Some("[1]".to_string()),
    };
    match forward_outcome("", Err(ControlParseError::JsonRpc(detail, Some("0".to_string())))) {
        ForwardAction::Reply(reply) => assert_eq!(
            reply,
            "{\"jsonrpc\":\"2.0\",\"id\":0,\"error\":{\"code\":7,\"message\":\"m\",\"data\":[1]}}"
        ),
        other => panic!("unexpected action {other:?}"),
    }
    assert!(matches!(
        forward_outcome(" 8: go", Ok(ControlParseResult::Event(None))),
        ForwardAction::Emit { event: PipeEvent::Scheduled(_), reply: None }
    ));
}
