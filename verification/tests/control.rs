use timesimulation::json::{JsonItem, JsonNode};
use timesimulation::windows_pipe::{
    accept_instruction, extract_jsonrpc_u64, interpret_control, parse_control_instruction,
    parse_jsonrpc_request, parse_shorthand, read_instruction, read_request, read_verb, speak,
    usage_text, ControlParseError, ControlParseResult, JsonRpcRequest, PipeEvent, Verb,
    INVALID_PARAMS, INVALID_REQUEST, METHOD_NOT_FOUND,
};
use timesimulation::{CommandPayload, ScheduledCommand};

fn event(line: &str) -> Option<PipeEvent> {
    match parse_control_instruction(line) {
        Ok(ControlParseResult::Event(event)) => event,
        other => panic!("unexpected outcome {other:?} for {line}"),
    }
}

fn request(line: &str) -> (Option<String>, PipeEvent) {
    match parse_control_instruction(line) {
        Ok(ControlParseResult::JsonRpc { id, event }) => (id, event),
        other => panic!("unexpected outcome {other:?} for {line}"),
    }
}

fn refusal(line: &str) -> (i64, String, Option<String>) {
    match parse_control_instruction(line) {
        Err(ControlParseError::JsonRpc(detail, id)) => {
            assert!(detail.data.is_none());
            (detail.code, detail.message, id)
        }
        other => panic!("unexpected outcome {other:?} for {line}"),
    }
}

fn complaint(line: &str) -> String {
    match parse_control_instruction(line) {
        Err(ControlParseError::Other(message)) => message,
        other => panic!("unexpected outcome {other:?} for {line}"),
    }
}

#[test]
fn parse_control_instruction_supports_json_and_shorthand() {
    // Arrange
    let json_input = "{\"type\":\"rate\",\"rate\":5}";
    let jsonrpc_input = "{\"jsonrpc\":\"2.0\",\"method\":\"rate\",\"params\":{\"rate\":7}}";
    let shorthand_tick = "tick";
    let invalid_rate = "rate 0";

    // Act
    let parsed_json = parse_control_instruction(json_input).unwrap();
    let parsed_jsonrpc = parse_control_instruction(jsonrpc_input).unwrap();
    let parsed_tick = parse_control_instruction(shorthand_tick).unwrap();
    let rate_error = parse_control_instruction(invalid_rate).unwrap_err();

    // Assert
    assert!(matches!(
        parsed_json,
        ControlParseResult::Event(Some(PipeEvent::SetRate(5)))
    ));
    assert!(matches!(
        parsed_jsonrpc,
        ControlParseResult::JsonRpc {
            event: PipeEvent::SetRate(7),
            ..
        }
    ));
    assert!(matches!(
        parsed_tick,
        ControlParseResult::Event(Some(PipeEvent::Tick))
    ));
    match rate_error {
        ControlParseError::Other(message) => {
            assert_eq!(message, "tick rate must be greater than zero");
        }
        _ => panic!("expected non-JSON-RPC error"),
    }
}

#[test]
fn parse_control_instruction_rejects_malformed_jsonrpc() {
    // Arrange
    let malformed = "{\"jsonrpc\":\"2.0\",\"method\":\"rate\",\"params\":{}}";

    // Act
    let error = parse_control_instruction(malformed).unwrap_err();

    // Assert
    match error {
        ControlParseError::JsonRpc(detail, _) => {
            assert!(detail.message.contains("invalid params"));
            assert_eq!(detail.code, -32602);
        }
        _ => panic!("expected JSON-RPC error"),
    }
}

#[test]
fn shorthand_lines_take_a_space_or_a_colon() {
    assert_eq!(event("start"), Some(PipeEvent::Start));
    assert_eq!(event("STOP"), Some(PipeEvent::Stop));
    assert_eq!(event("pause"), Some(PipeEvent::Pause));
    assert_eq!(event("now"), Some(PipeEvent::Now));
    assert_eq!(event("rate 2"), Some(PipeEvent::SetRate(2)));
    assert_eq!(event("run:3"), Some(PipeEvent::RunTicks(3)));
    assert_eq!(event("run 3"), Some(PipeEvent::RunTicks(3)));
    assert_eq!(event("Advance   10 "), Some(PipeEvent::Advance(10)));
    assert_eq!(event("step:+4"), Some(PipeEvent::Step(4)));
    assert_eq!(event("tick tock"), Some(PipeEvent::Tick));
    assert_eq!(event("4:launch"), None);
    assert_eq!(event("rate:2 x"), None);
    assert_eq!(event(""), None);
}

#[test]
fn shorthand_lines_say_how_verbs_are_used() {
    assert_eq!(complaint("step"), "usage: step <non-negative delta>");
    assert_eq!(complaint("advance x"), "usage: advance <target timestamp>");
    assert_eq!(complaint("run -1"), "usage: run <number of ticks>");
    assert_eq!(complaint("rate:"), "usage: rate <non-zero u64>");
    assert_eq!(complaint("rate:0"), "tick rate must be greater than zero");
    assert_eq!(usage_text(Verb::Step), "usage: step <non-negative delta>");
    assert_eq!(speak(Verb::Run, "6"), Ok(PipeEvent::RunTicks(6)));
    assert_eq!(read_verb("rate"), Some(Verb::Rate));
    assert_eq!(read_verb("Rate"), None);
    assert!(matches!(
        parse_shorthand("whatever"),
        Ok(ControlParseResult::Event(None))
    ));
}

#[test]
fn json_control_messages_name_their_verb() {
    assert_eq!(event("{\"type\":\"start\"}"), Some(PipeEvent::Start));
    assert_eq!(event("{\"type\":\"pause\",\"why\":[1]}"), Some(PipeEvent::Pause));
    assert_eq!(event("{\"type\":\"run\",\"ticks\":4}"), Some(PipeEvent::RunTicks(4)));
    assert_eq!(event(" {\"delta\":9, \"type\":\"step\"} "), Some(PipeEvent::Step(9)));
    assert_eq!(event("{\"type\":\"advance\",\"target\":0}"), Some(PipeEvent::Advance(0)));
    assert_eq!(event("{\"type\":\"\\u006eow\"}"), Some(PipeEvent::Now));
    assert_eq!(event("[\"tick\"]"), Some(PipeEvent::Tick));
    assert_eq!(event("[\"rate\",3]"), Some(PipeEvent::SetRate(3)));
    assert_eq!(
        complaint("{\"type\":\"rate\",\"rate\":0}"),
        "tick rate must be greater than zero"
    );
}

#[test]
fn other_json_is_left_to_the_scheduler() {
    for line in [
        "{\"type\":\"warp\"}",
        "{\"type\":\"Start\"}",
        "{\"type\":\"run\"}",
        "{\"type\":\"run\",\"ticks\":-1}",
        "{\"type\":\"run\",\"ticks\":1.0}",
        "{\"type\":7}",
        "{\"kind\":\"start\"}",
        "[\"tick\",1]",
        "[\"rate\"]",
        "[]",
        "\"start\"",
        "5",
        "null",
        "true",
    ] {
        assert_eq!(event(line), None, "{line}");
    }
}

#[test]
fn keys_that_matter_may_not_occur_twice() {
    assert_eq!(event("{\"type\":\"start\",\"type\":\"stop\"}"), None);
    assert_eq!(event("{\"type\":\"start\",\"t\\u0079pe\":\"start\"}"), None);
    assert_eq!(event("{\"type\":\"run\",\"ticks\":1,\"ticks\":1}"), None);
    assert_eq!(
        event("{\"type\":\"tick\",\"x\":{\"type\":1},\"x\":[\"type\",\"type\"]}"),
        Some(PipeEvent::Tick)
    );
    assert_eq!(
        event("{\"type\":\"step\",\"delta\":2,\"note\":\"a \\\"delta\\\", \\\\\",\"type \":0}"),
        Some(PipeEvent::Step(2))
    );
}

#[test]
fn json_rpc_requests_carry_their_id() {
    assert_eq!(
        request("{\"jsonrpc\":\"2.0\",\"id\":1,\"method\":\"start\"}"),
        (Some("1".to_string()), PipeEvent::Start)
    );
    assert_eq!(
        request("{\"jsonrpc\":\"2.0\",\"method\":\"stop\"}"),
        (None, PipeEvent::Stop)
    );
    assert_eq!(
        request("{\"jsonrpc\":\"2.0\",\"id\":null,\"method\":\"pause\"}"),
        (Some("null".to_string()), PipeEvent::Pause)
    );
    assert_eq!(
        request("{\"jsonrpc\":\"2.0\",\"id\":{\"a\": [1, \"x\"]},\"method\":\"tick\"}"),
        (Some("{\"a\":[1,\"x\"]}".to_string()), PipeEvent::Tick)
    );
    assert_eq!(
        request("{\"jsonrpc\":\"2.0\",\"id\":\"k\",\"method\":\"AddFileNoteAsync\"}"),
        (Some("\"k\"".to_string()), PipeEvent::Now)
    );
    assert_eq!(
        request("{\"jsonrpc\":\"2.0\",\"method\":\"now\",\"type\":\"stop\"}"),
        (None, PipeEvent::Now)
    );
}

#[test]
fn json_rpc_parameters_come_in_three_forms() {
    for params in ["10", "[10]", "[10,\"x\"]", "{\"ticks\":10}"] {
        let line =
            format!("{{\"jsonrpc\":\"2.0\",\"id\":3,\"method\":\"run\",\"params\":{params}}}");
        assert_eq!(request(&line), (Some("3".to_string()), PipeEvent::RunTicks(10)));
    }
    assert_eq!(
        request("{\"jsonrpc\":\"2.0\",\"method\":\"step\",\"params\":{\"delta\":2}}").1,
        PipeEvent::Step(2)
    );
    assert_eq!(
        request("{\"jsonrpc\":\"2.0\",\"method\":\"advance\",\"params\":{\"target\":8}}").1,
        PipeEvent::Advance(8)
    );
}

#[test]
fn json_rpc_errors_have_their_codes() {
    assert_eq!(
        refusal("{\"jsonrpc\":\"2.0\",\"id\":4,\"method\":\"warp\"}"),
        (
            METHOD_NOT_FOUND,
            "method not found: 'warp'".to_string(),
            Some("4".to_string())
        )
    );
    assert_eq!(
        refusal("{\"jsonrpc\":\"2.0\",\"id\":5,\"method\":\"rate\",\"params\":{\"rate\":0}}"),
        (
            INVALID_PARAMS,
            "invalid params: tick rate must be greater than zero".to_string(),
            Some("5".to_string())
        )
    );
    for params in ["", ",\"params\":null", ",\"params\":[]", ",\"params\":\"3\"", ",\"params\":-3"] {
        let line = format!("{{\"jsonrpc\":\"2.0\",\"method\":\"step\"{params}}}");
        assert_eq!(
            refusal(&line),
            (
                INVALID_PARAMS,
                "invalid params: method 'step' requires 'delta'".to_string(),
                None
            )
        );
    }
    assert_eq!(
        refusal("{\"jsonrpc\":\"2.0\",\"id\":6,\"method\":42}"),
        (
            INVALID_REQUEST,
            "invalid JSON-RPC request: invalid type: integer `42`, expected a string".to_string(),
            Some("6".to_string())
        )
    );
    assert_eq!(
        refusal("{\"jsonrpc\":\"2.0\",\"id\":6}"),
        (
            INVALID_REQUEST,
            "invalid JSON-RPC request: missing field `method`".to_string(),
            Some("6".to_string())
        )
    );
    assert_eq!(
        refusal("{\"jsonrpc\":2,\"method\":\"start\"}"),
        (
            INVALID_REQUEST,
            "invalid JSON-RPC request: invalid type: integer `2`, expected a string".to_string(),
            None
        )
    );
    assert_eq!(
        refusal("{\"jsonrpc\":\"1.0\",\"method\":\"start\"}"),
        (
            INVALID_REQUEST,
            "invalid JSON-RPC request: jsonrpc must be \"2.0\"".to_string(),
            None
        )
    );
    assert_eq!((INVALID_REQUEST, METHOD_NOT_FOUND), (-32600, -32601));
}

fn number(value: u64) -> JsonItem {
    JsonItem {
        text: value.to_string(),
        number: Some(value),
        string: Err("no string".to_string()),
    }
}

fn string(value: &str) -> JsonItem {
    JsonItem {
        text: format!("\"{value}\""),
        number: None,
        string: Ok(value.to_string()),
    }
}

#[test]
fn what_json_says_can_be_handed_over() {
    let node = JsonNode::Object(vec![
        ("rate".to_string(), number(6)),
        ("type".to_string(), string("rate")),
    ]);
    let line = "{\"type\":\"rate\",\"rate\":6}";
    assert_eq!(read_instruction(line, &node), Some(PipeEvent::SetRate(6)));
    assert!(matches!(
        interpret_control(line, &Some(node)),
        Ok(ControlParseResult::Event(Some(PipeEvent::SetRate(6))))
    ));
    assert!(matches!(
        interpret_control("tick", &None),
        Ok(ControlParseResult::Event(Some(PipeEvent::Tick)))
    ));
    assert!(accept_instruction(PipeEvent::SetRate(0)).is_err());
    assert!(accept_instruction(PipeEvent::SetRate(1)).is_ok());

    let members = vec![
        ("id".to_string(), number(7)),
        ("method".to_string(), string("run")),
        (
            "params".to_string(),
            JsonItem {
                text: "[2]".to_string(),
                number: None,
                string: Err("no string".to_string()),
            },
        ),
    ];
    let request = read_request(&string("2.0"), &members).unwrap();
    assert_eq!(request.method, "run");
    assert_eq!(request.id.as_deref(), Some("7"));
    assert_eq!(parse_jsonrpc_request(&request).unwrap(), PipeEvent::RunTicks(2));
}

#[test]
fn floats_in_errors_are_those_of_the_message() {
    for float in ["0.1", "2.5e-8", "1.7976931348623157e308", "123456.789012345678", "9e-300"] {
        let line = format!("{{\"jsonrpc\":\"2.0\",\"method\":{float}}}");
        let value: serde_json::Value = serde_json::from_str(float).unwrap();
        let reason = serde_json::from_value::<String>(value).unwrap_err().to_string();
        assert_eq!(
            refusal(&line),
            (INVALID_REQUEST, format!("invalid JSON-RPC request: {reason}"), None)
        );
    }
}

#[test]
fn a_request_can_be_built_by_hand() {
    let mut request = JsonRpcRequest {
        jsonrpc: "2.0".to_string(),
        id: None,
        method: "advance".to_string(),
        params: Some(JsonNode::Number(Some(30))),
    };
    assert_eq!(parse_jsonrpc_request(&request).unwrap(), PipeEvent::Advance(30));
    assert_eq!(
        extract_jsonrpc_u64(&request.params, "target", "advance", &None).unwrap(),
        30
    );
    request.params = Some(JsonNode::Bool(true));
    match parse_jsonrpc_request(&request) {
        Err(ControlParseError::JsonRpc(detail, None)) => {
            assert_eq!(detail.message, "invalid params: method 'advance' requires 'target'");
        }
        other => panic!("unexpected outcome {other:?}"),
    }
}

#[test]
fn events_come_from_scheduled_commands() {
    let command = ScheduledCommand {
        timestamp: 2,
        command: CommandPayload::raw("go"),
    };
    let event = PipeEvent::from(command.clone());
    assert_eq!(event, PipeEvent::Scheduled(command));
    assert_eq!(event.clone(), event);
}
