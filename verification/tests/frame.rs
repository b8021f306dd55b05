use timesimulation::frame::{
    answer_in_frames, decode_frame, encode_frame, forward_message, forward_payload, FrameAction,
};
use timesimulation::windows_pipe::{
    ControlParseError, ControlParseResult, JsonRpcErrorDetail, PipeEvent,
};

fn pack(text: &str) -> Vec<u8> {
    let value: serde_json::Value = serde_json::from_str(text).unwrap();
    rmp_serde::to_vec(&value).unwrap()
}

fn unpack(frame: &Vec<u8>) -> serde_json::Value {
    let (payload, used) = decode_frame(frame).unwrap();
    assert_eq!(used, frame.len());
    rmp_serde::from_slice(&payload).unwrap()
}

#[test]
fn frames_have_a_little_endian_length() {
    assert_eq!(encode_frame(&vec![7, 8]).unwrap(), vec![2, 0, 0, 0, 7, 8]);
    assert_eq!(encode_frame(&Vec::new()).unwrap(), vec![0, 0, 0, 0]);
    let long = vec![1u8; 0x1_0203];
    let frame = encode_frame(&long).unwrap();
    assert_eq!(&frame[..4], &[0x03, 0x02, 0x01, 0x00]);
    assert_eq!(frame.len(), 4 + 0x1_0203);
}

#[test]
fn frames_read_back_whatever_follows() {
    let mut bytes = encode_frame(&vec![1, 2, 3]).unwrap();
    bytes.extend(encode_frame(&vec![9]).unwrap());
    let (first, used) = decode_frame(&bytes).unwrap();
    assert_eq!((first, used), (vec![1, 2, 3], 7));
    let (second, used) = decode_frame(&bytes[7..].to_vec()).unwrap();
    assert_eq!((second, used), (vec![9], 5));
}

#[test]
fn frames_that_are_not_all_there_are_not_taken() {
    let frame = encode_frame(&vec![5, 6, 7]).unwrap();
    for length in 0..frame.len() {
        assert!(decode_frame(&frame[..length].to_vec()).is_none());
    }
    assert!(decode_frame(&vec![255, 255, 255, 255, 0]).is_none());
}

#[test]
fn binary_requests_are_answered_in_frames() {
    let request = pack("{\"jsonrpc\":\"2.0\",\"id\":7,\"method\":\"rate\",\"params\":{\"rate\":4}}");
    match forward_payload(&request) {
        FrameAction::Emit { event, reply } => {
            assert_eq!(event, PipeEvent::SetRate(4));
            let reply = unpack(&reply.unwrap());
            assert_eq!(reply["jsonrpc"], "2.0");
            assert_eq!(reply["id"], 7);
            assert_eq!(reply["result"], "ok");
        }
        other => panic!("unexpected action {other:?}"),
    }
    let refused = pack("{\"jsonrpc\":\"2.0\",\"id\":\"x\",\"method\":\"warp\"}");
    match forward_payload(&refused) {
        FrameAction::Reply(reply) => {
            let reply = unpack(&reply);
            assert_eq!(reply["id"], "x");
            assert_eq!(reply["error"]["code"], -32601);
            assert_eq!(reply["error"]["message"], "method not found: 'warp'");
        }
        other => panic!("unexpected action {other:?}"),
    }
}

#[test]
fn binary_notifications_are_not_answered() {
    let request = pack("{\"jsonrpc\":\"2.0\",\"method\":\"stop\"}");
    assert!(matches!(
        forward_payload(&request),
        FrameAction::Emit { event: PipeEvent::Stop, reply: None }
    ));
    let refused = pack("{\"jsonrpc\":\"2.0\",\"method\":\"warp\"}");
    assert!(matches!(forward_payload(&refused), FrameAction::Ignore));
}

#[test]
fn payloads_that_are_no_messages_are_complained_about() {
    match forward_payload(&vec![0xc1]) {
        FrameAction::Complain(message) => {
            assert_eq!(message, "failed to parse MessagePack message");
        }
        other => panic!("unexpected action {other:?}"),
    }
    assert!(matches!(forward_payload(&pack("5")), FrameAction::Complain(_)));
}

#[test]
fn float_ids_come_back_as_they_were_sent() {
    for id in [0.1, 2.5e-8, 1.7976931348623157e308, 123456.789012345678, 9e-300, 5e-324, 0.3] {
        for method in ["tick", "warp"] {
            let mut request = serde_json::Map::new();
            request.insert("jsonrpc".to_string(), "2.0".into());
            request.insert("id".to_string(), id.into());
            request.insert("method".to_string(), method.into());
            let payload = rmp_serde::to_vec(&request).unwrap();
            let reply = match forward_payload(&payload) {
                FrameAction::Emit { reply, .. } => reply.unwrap(),
                FrameAction::Reply(reply) => reply,
                other => panic!("unexpected action {other:?}"),
            };
            assert_eq!(unpack(&reply)["id"].as_f64(), Some(id));
        }
    }
}

#[test]
fn binary_control_messages_are_taken() {
    assert!(matches!(
        forward_payload(&pack("{\"type\":\"step\",\"delta\":3}")),
        FrameAction::Emit { event: PipeEvent::Step(3), reply: None }
    ));
    match forward_payload(&pack("{\"type\":\"rate\",\"rate\":0}")) {
        FrameAction::Complain(message) => assert_eq!(
            message,
            "failed to parse MessagePack message: tick rate must be greater than zero"
        ),
        other => panic!("unexpected action {other:?}"),
    }
}

fn request(id: Option<&str>, event: PipeEvent) -> Result<ControlParseResult, ControlParseError> {
    Ok(ControlParseResult::JsonRpc {
        id: id.map(str::to_string),
        event,
    })
}

fn refusal(id: Option<&str>) -> Result<ControlParseResult, ControlParseError> {
    let detail = JsonRpcErrorDetail {
        code: -5,
        message: "no".to_string(),
        data: None,
    };
    Err(ControlParseError::JsonRpc(detail, id.map(str::to_string)))
}

#[test]
fn answers_are_put_into_frames() {
    match answer_in_frames(refusal(Some("1")), Some(vec![1])) {
        FrameAction::Reply(bytes) => assert_eq!(bytes, vec![1, 0, 0, 0, 1]),
        other => panic!("unexpected action {other:?}"),
    }
    assert!(matches!(answer_in_frames(refusal(None), None), FrameAction::Ignore));
    match answer_in_frames(request(Some("1"), PipeEvent::Now), Some(Vec::new())) {
        FrameAction::Emit { event, reply } => {
            assert_eq!(event, PipeEvent::Now);
            assert_eq!(reply, Some(vec![0, 0, 0, 0]));
        }
        other => panic!("unexpected action {other:?}"),
    }
    assert!(matches!(
        answer_in_frames(Ok(ControlParseResult::Event(None)), None),
        FrameAction::Complain(_)
    ));
}

#[test]
fn error_replies_hold_code_and_message() {
    let payload = pack("{\"jsonrpc\":\"2.0\",\"id\":[1,{\"a\":null}],\"method\":\"a\\n\\\"b\"}");
    match forward_message(Some(&payload)) {
        FrameAction::Reply(reply) => assert_eq!(
            unpack(&reply).to_string(),
            "{\"error\":{\"code\":-32601,\"message\":\"method not found: 'a\\n\\\"b'\"},\"id\":[1,{\"a\":null}],\"jsonrpc\":\"2.0\"}"
        ),
        other => panic!("unexpected action {other:?}"),
    }
}

#[test]
fn binary_requests_are_answered_exactly_with_an_id() {
    for (method, id) in [("tick", true), ("tick", false), ("warp", true), ("warp", false)] {
        let id_member = if id { ",\"id\":null" } else { "" };
        let payload = pack(&format!("{{\"jsonrpc\":\"2.0\",\"method\":\"{method}\"{id_member}}}"));
        let answered = match forward_message(Some(&payload)) {
            FrameAction::Emit { reply, .. } => reply.is_some(),
            FrameAction::Reply(_) => true,
            FrameAction::Ignore => false,
            other => panic!("unexpected action {other:?}"),
        };
        assert_eq!(answered, id);
    }
}

#[test]
fn the_end_of_binary_input_ends_the_listening() {
    assert!(matches!(
        forward_message(None),
        FrameAction::Finish(PipeEvent::Disconnected)
    ));
}
